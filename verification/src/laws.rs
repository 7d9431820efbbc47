//! Properties that hold of every input, stated over the specifications that
//! the functions' contracts use.
use vstd::prelude::*;

use crate::cli::{dump_line_spec, pad_right, KEY_COLUMN_WIDTH};
use crate::config::{
    parse_bindsym_spec, current_mode, initial_state, lines_spec, parse_config_spec, run_lines, step_spec, strip_cr, BindingView,
    ConfigState,
};
use crate::keys::{display_keys_spec, display_part_spec, follow_vars, resolve_keys_spec, resolve_part_spec};
use crate::lexer::{first_token_and_rest_spec, quoted_token_spec, strip_comment_spec};
use crate::subst::{is_name_byte, latin1, name_end, subst_from, substitute_vars_spec, var_key};
use crate::symbols::{key_chip_spec, key_symbol_spec};
use crate::viewer::{binding_matches, lowercase};
use crate::text::{
    join_spec, lemma_join_split, lemma_split_join, lemma_split_nonempty, lemma_split_parts_free,
    split_spec, trim_spec, index_of, is_ws, lemma_index_of, lemma_scan, lemma_scan_back, scan,
    scan_back, trim_start_spec,
};

verus! {

/// Splitting a key combination at `+` and joining the parts again gives the
/// combination back.
pub proof fn law_join_split(keys: Seq<char>)
    ensures
        join_spec(split_spec(keys, '+'), '+') == keys,
{
    lemma_join_split(keys, '+');
}

/// Without variables, resolving a key combination leaves it as it is.
pub proof fn law_resolve_keys_without_vars(keys: Seq<char>)
    ensures
        resolve_keys_spec(keys, Map::empty()) == keys,
{
    let ps = split_spec(keys, '+');
    let e = Map::<Seq<char>, Seq<char>>::empty();
    assert forall|k: int| 0 <= k < ps.len() implies #[trigger] resolve_part_spec(ps[k], e) == ps[k] by {
        assert(follow_vars(ps[k], e, 0) == ps[k]);
    }
    assert(ps.map_values(|p: Seq<char>| resolve_part_spec(p, e)) =~= ps);
    lemma_join_split(keys, '+');
}

proof fn lemma_display_part_free(p: Seq<char>)
    requires
        forall|j: int| 0 <= j < p.len() ==> #[trigger] p[j] != '+',
    ensures
        forall|j: int| 0 <= j < display_part_spec(p).len() ==> #[trigger] display_part_spec(p)[j] != '+',
{
    reveal_strlit("Super");
    reveal_strlit("Alt");
    reveal_strlit("Mod2");
    reveal_strlit("Mod3");
    reveal_strlit("Mod5");
    reveal_strlit("Ctrl");
}

/// The modifier names and their display names are told apart.
proof fn lemma_modifier_names_distinct()
    ensures
        "Mod4"@ != "Mod1"@,
        "Mod4"@ != "Mod2"@,
        "Mod4"@ != "Mod3"@,
        "Mod4"@ != "Mod5"@,
        "Mod4"@ != "Control"@,
        "Mod4"@ != "Super"@,
        "Mod4"@ != "Alt"@,
        "Mod4"@ != "Ctrl"@,
        "Mod1"@ != "Mod2"@,
        "Mod1"@ != "Mod3"@,
        "Mod1"@ != "Mod5"@,
        "Mod1"@ != "Control"@,
        "Mod1"@ != "Super"@,
        "Mod1"@ != "Alt"@,
        "Mod1"@ != "Ctrl"@,
        "Mod2"@ != "Mod3"@,
        "Mod2"@ != "Mod5"@,
        "Mod2"@ != "Control"@,
        "Mod2"@ != "Super"@,
        "Mod2"@ != "Alt"@,
        "Mod2"@ != "Ctrl"@,
        "Mod3"@ != "Mod5"@,
        "Mod3"@ != "Control"@,
        "Mod3"@ != "Super"@,
        "Mod3"@ != "Alt"@,
        "Mod3"@ != "Ctrl"@,
        "Mod5"@ != "Control"@,
        "Mod5"@ != "Super"@,
        "Mod5"@ != "Alt"@,
        "Mod5"@ != "Ctrl"@,
        "Control"@ != "Super"@,
        "Control"@ != "Alt"@,
        "Control"@ != "Ctrl"@,
        "Super"@ != "Alt"@,
        "Super"@ != "Ctrl"@,
        "Alt"@ != "Ctrl"@,
{
    reveal_strlit("Mod4");
    reveal_strlit("Mod1");
    reveal_strlit("Mod2");
    reveal_strlit("Mod3");
    reveal_strlit("Mod5");
    reveal_strlit("Control");
    reveal_strlit("Super");
    reveal_strlit("Alt");
    reveal_strlit("Ctrl");
    assert("Mod4"@ != "Mod1"@) by {
        assert("Mod4"@[3] != "Mod1"@[3]);
    }
    assert("Mod4"@ != "Mod2"@) by {
        assert("Mod4"@[3] != "Mod2"@[3]);
    }
    assert("Mod4"@ != "Mod3"@) by {
        assert("Mod4"@[3] != "Mod3"@[3]);
    }
    assert("Mod4"@ != "Mod5"@) by {
        assert("Mod4"@[3] != "Mod5"@[3]);
    }
    assert("Mod4"@ != "Control"@) by {
        assert("Mod4"@.len() == 4);
        assert("Control"@.len() == 7);
    }
    assert("Mod4"@ != "Super"@) by {
        assert("Mod4"@.len() == 4);
        assert("Super"@.len() == 5);
    }
    assert("Mod4"@ != "Alt"@) by {
        assert("Mod4"@.len() == 4);
        assert("Alt"@.len() == 3);
    }
    assert("Mod4"@ != "Ctrl"@) by {
        assert("Mod4"@[0] != "Ctrl"@[0]);
    }
    assert("Mod1"@ != "Mod2"@) by {
        assert("Mod1"@[3] != "Mod2"@[3]);
    }
    assert("Mod1"@ != "Mod3"@) by {
        assert("Mod1"@[3] != "Mod3"@[3]);
    }
    assert("Mod1"@ != "Mod5"@) by {
        assert("Mod1"@[3] != "Mod5"@[3]);
    }
    assert("Mod1"@ != "Control"@) by {
        assert("Mod1"@.len() == 4);
        assert("Control"@.len() == 7);
    }
    assert("Mod1"@ != "Super"@) by {
        assert("Mod1"@.len() == 4);
        assert("Super"@.len() == 5);
    }
    assert("Mod1"@ != "Alt"@) by {
        assert("Mod1"@.len() == 4);
        assert("Alt"@.len() == 3);
    }
    assert("Mod1"@ != "Ctrl"@) by {
        assert("Mod1"@[0] != "Ctrl"@[0]);
    }
    assert("Mod2"@ != "Mod3"@) by {
        assert("Mod2"@[3] != "Mod3"@[3]);
    }
    assert("Mod2"@ != "Mod5"@) by {
        assert("Mod2"@[3] != "Mod5"@[3]);
    }
    assert("Mod2"@ != "Control"@) by {
        assert("Mod2"@.len() == 4);
        assert("Control"@.len() == 7);
    }
    assert("Mod2"@ != "Super"@) by {
        assert("Mod2"@.len() == 4);
        assert("Super"@.len() == 5);
    }
    assert("Mod2"@ != "Alt"@) by {
        assert("Mod2"@.len() == 4);
        assert("Alt"@.len() == 3);
    }
    assert("Mod2"@ != "Ctrl"@) by {
        assert("Mod2"@[0] != "Ctrl"@[0]);
    }
    assert("Mod3"@ != "Mod5"@) by {
        assert("Mod3"@[3] != "Mod5"@[3]);
    }
    assert("Mod3"@ != "Control"@) by {
        assert("Mod3"@.len() == 4);
        assert("Control"@.len() == 7);
    }
    assert("Mod3"@ != "Super"@) by {
        assert("Mod3"@.len() == 4);
        assert("Super"@.len() == 5);
    }
    assert("Mod3"@ != "Alt"@) by {
        assert("Mod3"@.len() == 4);
        assert("Alt"@.len() == 3);
    }
    assert("Mod3"@ != "Ctrl"@) by {
        assert("Mod3"@[0] != "Ctrl"@[0]);
    }
    assert("Mod5"@ != "Control"@) by {
        assert("Mod5"@.len() == 4);
        assert("Control"@.len() == 7);
    }
    assert("Mod5"@ != "Super"@) by {
        assert("Mod5"@.len() == 4);
        assert("Super"@.len() == 5);
    }
    assert("Mod5"@ != "Alt"@) by {
        assert("Mod5"@.len() == 4);
        assert("Alt"@.len() == 3);
    }
    assert("Mod5"@ != "Ctrl"@) by {
        assert("Mod5"@[0] != "Ctrl"@[0]);
    }
    assert("Control"@ != "Super"@) by {
        assert("Control"@.len() == 7);
        assert("Super"@.len() == 5);
    }
    assert("Control"@ != "Alt"@) by {
        assert("Control"@.len() == 7);
        assert("Alt"@.len() == 3);
    }
    assert("Control"@ != "Ctrl"@) by {
        assert("Control"@.len() == 7);
        assert("Ctrl"@.len() == 4);
    }
    assert("Super"@ != "Alt"@) by {
        assert("Super"@.len() == 5);
        assert("Alt"@.len() == 3);
    }
    assert("Super"@ != "Ctrl"@) by {
        assert("Super"@.len() == 5);
        assert("Ctrl"@.len() == 4);
    }
    assert("Alt"@ != "Ctrl"@) by {
        assert("Alt"@.len() == 3);
        assert("Ctrl"@.len() == 4);
    }
}

proof fn lemma_display_part_idempotent(p: Seq<char>)
    ensures
        display_part_spec(display_part_spec(p)) == display_part_spec(p),
{
    lemma_modifier_names_distinct();
}

/// The display names of the parts of a key combination are free of `+`, so
/// splitting the displayed combination gives the displayed parts.
proof fn lemma_split_display(keys: Seq<char>)
    ensures
        split_spec(display_keys_spec(keys), '+') == split_spec(keys, '+').map_values(
            |p: Seq<char>| display_part_spec(p),
        ),
{
    let ps = split_spec(keys, '+');
    let ds = ps.map_values(|p: Seq<char>| display_part_spec(p));
    lemma_split_nonempty(keys, '+');
    lemma_split_parts_free(keys, '+');
    assert forall|k: int, j: int| 0 <= k < ds.len() && 0 <= j < ds[k].len() implies #[trigger] ds[k][j]
        != '+' by {
        assert forall|i: int| 0 <= i < ps[k].len() implies #[trigger] ps[k][i] != '+' by {
            assert(ps[k][i] != '+');
        }
        lemma_display_part_free(ps[k]);
    }
    lemma_split_join(ds, '+');
}

/// Giving modifiers their display names twice is the same as once.
pub proof fn law_display_keys_idempotent(keys: Seq<char>)
    ensures
        display_keys_spec(display_keys_spec(keys)) == display_keys_spec(keys),
{
    let ps = split_spec(keys, '+');
    let ds = ps.map_values(|p: Seq<char>| display_part_spec(p));
    lemma_split_display(keys);
    assert forall|k: int| 0 <= k < ds.len() implies #[trigger] display_part_spec(ds[k]) == ds[k] by {
        lemma_display_part_idempotent(ps[k]);
    }
    assert(ds.map_values(|p: Seq<char>| display_part_spec(p)) =~= ds);
}

/// A key shows the same symbol under its display name as under its own name.
pub proof fn law_display_name_keeps_symbol(part: Seq<char>)
    ensures
        key_symbol_spec(display_part_spec(part)) == key_symbol_spec(part),
{
    lemma_modifier_names_distinct();
}

/// Giving modifiers their display names does not change the chips shown for a
/// key combination.
pub proof fn law_display_keys_keeps_chips(keys: Seq<char>)
    ensures
        key_chip_spec(display_keys_spec(keys)) == key_chip_spec(keys),
{
    let ps = split_spec(keys, '+');
    lemma_split_display(keys);
    assert forall|k: int| 0 <= k < ps.len() implies #[trigger] key_symbol_spec(
        display_part_spec(ps[k]),
    ) == key_symbol_spec(ps[k]) by {
        law_display_name_keeps_symbol(ps[k]);
    }
    assert(key_chip_spec(display_keys_spec(keys)) =~= key_chip_spec(keys));
}

/// Where no substitution applies from `i` on, the bytes are copied as
/// characters.
proof fn lemma_subst_copies(b: Seq<u8>, i: int, vars: Map<Seq<char>, Seq<char>>)
    requires
        0 <= i <= b.len(),
        forall|j: int|
            i <= j < b.len() ==> #[trigger] b[j] != 0x24u8 || !vars.contains_key(var_key(b, j)),
    ensures
        subst_from(b, i, vars) == latin1(b.skip(i)),
    decreases b.len() - i,
{
    if i < b.len() {
        lemma_subst_copies(b, i + 1, vars);
        assert(latin1(b.skip(i)) =~= seq![b[i] as char] + latin1(b.skip(i + 1)));
    } else {
        assert(latin1(b.skip(i)) =~= Seq::<char>::empty());
    }
}

/// ASCII text read back from its bytes as Latin-1 is the same text.
proof fn lemma_ascii_latin1(s: Seq<char>)
    requires
        vstd::utf8::is_ascii_chars(s),
    ensures
        latin1(vstd::utf8::encode_utf8(s)) == s,
        forall|j: int| 0 <= j < s.len() ==> #[trigger] vstd::utf8::encode_utf8(s)[j] == s[j] as u8,
        vstd::utf8::encode_utf8(s).len() == s.len(),
{
    vstd::utf8::is_ascii_chars_encode_utf8(s);
    let b = vstd::utf8::encode_utf8(s);
    assert forall|j: int| 0 <= j < s.len() implies #[trigger] latin1(b)[j] == s[j] by {
        assert(b[j] == s[j] as u8);
        assert('\0' <= s[j] <= '\u{7f}');
        assert((s[j] as u8) as char == s[j]);
    }
    assert(latin1(b) =~= s);
}

/// Without variables, substitution leaves ASCII text as it is. (Text outside
/// ASCII is not kept: each of its UTF-8 bytes becomes a character of its own.)
pub proof fn law_substitute_without_vars(s: Seq<char>)
    requires
        vstd::utf8::is_ascii_chars(s),
    ensures
        substitute_vars_spec(s, Map::empty()) == s,
{
    lemma_ascii_latin1(s);
    let b = vstd::utf8::encode_utf8(s);
    lemma_subst_copies(b, 0, Map::empty());
    assert(b.skip(0) =~= b);
}

/// ASCII text without `$` is left as it is, whatever the variables.
pub proof fn law_substitute_without_dollar(s: Seq<char>, vars: Map<Seq<char>, Seq<char>>)
    requires
        vstd::utf8::is_ascii_chars(s),
        forall|j: int| 0 <= j < s.len() ==> #[trigger] s[j] != '$',
    ensures
        substitute_vars_spec(s, vars) == s,
{
    lemma_ascii_latin1(s);
    let b = vstd::utf8::encode_utf8(s);
    assert forall|j: int| 0 <= j < b.len() implies #[trigger] b[j] != 0x24u8 || !vars.contains_key(
        var_key(b, j),
    ) by {
        assert(b[j] == s[j] as u8);
        assert('\0' <= s[j] <= '\u{7f}');
        assert(s[j] != '$');
    }
    lemma_subst_copies(b, 0, vars);
    assert(b.skip(0) =~= b);
}

/// Reading two runs of lines one after the other is reading them joined.
pub proof fn law_run_lines_append(st: ConfigState, a: Seq<Seq<char>>, b: Seq<Seq<char>>)
    ensures
        run_lines(st, a + b) == run_lines(run_lines(st, a), b),
    decreases a.len(),
{
    if a.len() == 0 {
        assert(a + b =~= b);
    } else {
        assert((a + b)[0] == a[0]);
        assert((a + b).drop_first() =~= a.drop_first() + b);
        law_run_lines_append(step_spec(st, a[0]), a.drop_first(), b);
    }
}

/// Blank lines and comment lines change nothing.
pub proof fn law_blank_lines_ignored(st: ConfigState, line: Seq<char>)
    requires
        trim_spec(strip_comment_spec(line)).len() == 0,
    ensures
        step_spec(st, line) == st,
{
}

/// Reading lines keeps the bindings already read, in place, and adds at most
/// one binding per line.
pub proof fn law_bindings_kept_and_bounded(st: ConfigState, ls: Seq<Seq<char>>)
    ensures
        run_lines(st, ls).bindings.len() <= st.bindings.len() + ls.len(),
        st.bindings.len() <= run_lines(st, ls).bindings.len(),
        forall|i: int| 0 <= i < st.bindings.len() ==> #[trigger] run_lines(st, ls).bindings[i] == st.bindings[i],
    decreases ls.len(),
{
    if ls.len() > 0 {
        let next = step_spec(st, ls[0]);
        law_bindings_kept_and_bounded(next, ls.drop_first());
        assert(next.bindings.len() <= st.bindings.len() + 1);
        assert forall|i: int| 0 <= i < st.bindings.len() implies #[trigger] next.bindings[i] == st.bindings[i] by {
        }
    }
}

/// Whether a line opens no mode block: its first word is not `mode`.
pub open spec fn opens_no_mode(line: Seq<char>) -> bool {
    first_token_and_rest_spec(trim_spec(strip_comment_spec(line))).0 != "mode"@
}

/// Outside any mode block, and with no line that opens one, every binding read
/// has no mode.
pub proof fn law_no_mode_blocks(st: ConfigState, ls: Seq<Seq<char>>)
    requires
        st.modes.len() == 0,
        forall|i: int| 0 <= i < ls.len() ==> opens_no_mode(#[trigger] ls[i]),
    ensures
        run_lines(st, ls).modes.len() == 0,
        forall|i: int|
            st.bindings.len() <= i < run_lines(st, ls).bindings.len() ==> (#[trigger] run_lines(
                st,
                ls,
            ).bindings[i]).mode is None,
    decreases ls.len(),
{
    if ls.len() > 0 {
        let next = step_spec(st, ls[0]);
        assert(opens_no_mode(ls[0]));
        assert(current_mode(st.modes) is None);
        assert(next.modes.len() == 0);
        assert(forall|i: int| st.bindings.len() <= i < next.bindings.len() ==> (
        #[trigger] next.bindings[i]).mode is None);
        assert forall|i: int| 0 <= i < ls.drop_first().len() implies opens_no_mode(
            #[trigger] ls.drop_first()[i],
        ) by {
            assert(ls.drop_first()[i] == ls[i + 1]);
        }
        law_no_mode_blocks(next, ls.drop_first());
        law_bindings_kept_and_bounded(next, ls.drop_first());
    }
}

/// In the `--dump` listing, a binding without a mode whose keys fit the key
/// column has its command start right after that column and a space.
pub proof fn law_dump_command_column(b: BindingView)
    requires
        b.mode is None,
        b.keys.len() <= KEY_COLUMN_WIDTH,
    ensures
        dump_line_spec(b).len() == KEY_COLUMN_WIDTH + 1 + b.command.len(),
        dump_line_spec(b).take(b.keys.len() as int) == b.keys,
        dump_line_spec(b).skip(KEY_COLUMN_WIDTH + 1) == b.command,
{
    let l = dump_line_spec(b);
    assert(pad_right(b.keys, KEY_COLUMN_WIDTH as nat).len() == KEY_COLUMN_WIDTH);
    assert(l.take(b.keys.len() as int) =~= b.keys);
    assert(l.skip(KEY_COLUMN_WIDTH + 1) =~= b.command);
}

/// A line without its comment is the part of it before the first `#`: it
/// holds no `#`, and a line without `#` is kept whole.
pub proof fn law_strip_comment(line: Seq<char>)
    ensures
        ({
            let r = strip_comment_spec(line);
            &&& r.len() <= line.len()
            &&& line.take(r.len() as int) == r
            &&& forall|k: int| 0 <= k < r.len() ==> #[trigger] r[k] != '#'
            &&& r.len() < line.len() ==> line[r.len() as int] == '#'
            &&& (forall|k: int| 0 <= k < line.len() ==> #[trigger] line[k] != '#') ==> r == line
        }),
{
    lemma_index_of(line, '#', 0);
    let r = strip_comment_spec(line);
    assert forall|k: int| 0 <= k < r.len() implies #[trigger] r[k] != '#' by {
        assert(r[k] == line[k]);
    }
    if forall|k: int| 0 <= k < line.len() ==> #[trigger] line[k] != '#' {
        if index_of(line, '#', 0) < line.len() {
            assert(line[index_of(line, '#', 0)] == '#');
        }
        assert(r =~= line);
    }
}

/// Trimming removes whitespace from both ends and nothing else: the result
/// neither starts nor ends with whitespace, it stands in the text right after
/// the leading whitespace, and only whitespace follows it.
pub proof fn law_trim(s: Seq<char>)
    ensures
        ({
            let t = trim_spec(s);
            let a = scan(s, 0, true);
            &&& t.len() > 0 ==> !is_ws(t[0]) && !is_ws(t.last())
            &&& 0 <= a && a + t.len() <= s.len()
            &&& s.subrange(a, a + t.len()) == t
            &&& forall|k: int| 0 <= k < a ==> is_ws(#[trigger] s[k])
            &&& forall|k: int| a + t.len() <= k < s.len() ==> is_ws(#[trigger] s[k])
        }),
{
    lemma_scan(s, 0, true);
    let a = scan(s, 0, true);
    let u = trim_start_spec(s);
    lemma_scan_back(u, u.len() as int);
    let t = trim_spec(s);
    let e = scan_back(u, u.len() as int);
    assert(t == u.take(e));
    if t.len() > 0 {
        assert(t[0] == s[a]);
        assert(t.last() == u[e - 1]);
    }
    assert(s.subrange(a, a + t.len()) =~= t);
    assert forall|k: int| a + t.len() <= k < s.len() implies is_ws(#[trigger] s[k]) by {
        assert(s[k] == u[k - a]);
    }
}

/// Trimming trimmed text changes nothing.
pub proof fn law_trim_idempotent(s: Seq<char>)
    ensures
        trim_spec(trim_spec(s)) == trim_spec(s),
{
    law_trim(s);
    let t = trim_spec(s);
    assert(scan(t, 0, true) == 0);
    assert(t.skip(0) =~= t);
    assert(trim_start_spec(t) == t);
    assert(scan_back(t, t.len() as int) == t.len());
    assert(t.take(t.len() as int) =~= t);
}

/// The first token holds no whitespace, what follows it starts with none, and
/// both are parts of the text: an empty token comes only with an empty rest.
pub proof fn law_first_token_and_rest(s: Seq<char>)
    ensures
        ({
            let (t, r) = first_token_and_rest_spec(s);
            &&& forall|k: int| 0 <= k < t.len() ==> !is_ws(#[trigger] t[k])
            &&& r.len() > 0 ==> !is_ws(r[0])
            &&& t.len() + r.len() <= s.len()
            &&& t.len() == 0 ==> r.len() == 0
            &&& r == s.skip(s.len() - r.len())
        }),
{
    crate::lexer::lemma_first_token_and_rest(s);
    let (t, r) = first_token_and_rest_spec(s);
    lemma_scan(s, 0, true);
    let a = scan(s, 0, true);
    lemma_scan(s, a, false);
    let b = scan(s, a, false);
    lemma_scan(s, b, true);
    assert(r =~= s.skip(s.len() - r.len()));
}

/// A quoted name holds no `"`, and it stands in the text between the first
/// `"` and the next.
pub proof fn law_quoted_token(s: Seq<char>)
    ensures
        quoted_token_spec(s) matches Some(t) ==> {
            &&& forall|k: int| 0 <= k < t.len() ==> #[trigger] t[k] != '"'
            &&& index_of(s, '"', 0) + t.len() + 2 <= s.len()
            &&& s.subrange(index_of(s, '"', 0), index_of(s, '"', 0) + t.len() + 2) == seq!['"'] + t
                + seq!['"']
        },
{
    lemma_index_of(s, '"', 0);
    let i = index_of(s, '"', 0);
    if i < s.len() {
        lemma_index_of(s, '"', i + 1);
        let j = index_of(s, '"', i + 1);
        if j < s.len() {
            let t = s.subrange(i + 1, j);
            assert forall|k: int| 0 <= k < t.len() implies #[trigger] t[k] != '"' by {
                assert(t[k] == s[i + 1 + k]);
            }
            assert(s.subrange(i, i + t.len() + 2) =~= seq!['"'] + t + seq!['"']);
        }
    }
}

proof fn lemma_index_of_prefix(a: Seq<char>, b: Seq<char>, c: char, i: int)
    requires
        0 <= i <= a.len(),
        index_of(a, c, i) < a.len(),
    ensures
        index_of(a + b, c, i) == index_of(a, c, i),
    decreases a.len() - i,
{
    if a[i] != c {
        lemma_index_of_prefix(a, b, c, i + 1);
    }
}

/// The lines of a text that is cut right after a line end are the lines of the
/// two parts, one after the other.
pub proof fn law_lines_append(a: Seq<char>, b: Seq<char>)
    requires
        a.len() == 0 || a.last() == '\n',
    ensures
        lines_spec(a + b) == lines_spec(a) + lines_spec(b),
    decreases a.len(),
{
    if a.len() == 0 {
        assert(a + b =~= b);
        assert(lines_spec(a) + lines_spec(b) =~= lines_spec(b));
    } else {
        lemma_index_of(a, '\n', 0);
        let i = index_of(a, '\n', 0);
        if i >= a.len() {
            assert(a[a.len() - 1] == '\n');
        }
        lemma_index_of_prefix(a, b, '\n', 0);
        let rest = a.skip(i + 1);
        assert((a + b).take(i) =~= a.take(i));
        assert((a + b).skip(i + 1) =~= rest + b);
        if rest.len() > 0 {
            assert(rest.last() == a.last());
        }
        law_lines_append(rest, b);
        assert(lines_spec(a + b) =~= lines_spec(a) + lines_spec(b));
    }
}

/// Reading a configuration cut right after a line end is reading its first
/// part and then, from the state that part leaves, its second part.
pub proof fn law_config_in_parts(st: ConfigState, a: Seq<char>, b: Seq<char>)
    requires
        a.len() == 0 || a.last() == '\n',
    ensures
        run_lines(st, lines_spec(a + b)) == run_lines(run_lines(st, lines_spec(a)), lines_spec(b)),
{
    law_lines_append(a, b);
    law_run_lines_append(st, lines_spec(a), lines_spec(b));
}

/// What a line says once its comment and surrounding whitespace are gone; a
/// line's effect on the reading depends on this alone.
pub open spec fn line_key(line: Seq<char>) -> Seq<char> {
    trim_spec(strip_comment_spec(line))
}

proof fn lemma_index_of_append_absent(a: Seq<char>, b: Seq<char>, c: char, i: int)
    requires
        0 <= i <= a.len(),
        index_of(a, c, i) == a.len(),
    ensures
        index_of(a + b, c, i) == index_of(a + b, c, a.len() as int),
    decreases a.len() - i,
{
    if i < a.len() {
        assert((a + b)[i] == a[i]);
        lemma_index_of_append_absent(a, b, c, i + 1);
    }
}

proof fn lemma_scan_push(s: Seq<char>, c: char, i: int, ws: bool)
    requires
        0 <= i <= s.len(),
    ensures
        scan(s.push(c), i, ws) == if scan(s, i, ws) < s.len() {
            scan(s, i, ws)
        } else if is_ws(c) == ws {
            s.len() + 1int
        } else {
            s.len() as int
        },
    decreases s.len() - i,
{
    let u = s.push(c);
    if i < s.len() {
        assert(u[i] == s[i]);
        if is_ws(s[i]) == ws {
            lemma_scan_push(s, c, i + 1, ws);
        }
    } else {
        assert(u[i] == c);
        if is_ws(c) == ws {
            assert(scan(u, i + 1, ws) == i + 1);
        }
    }
}

proof fn lemma_scan_back_push(t: Seq<char>, c: char, j: int)
    requires
        0 <= j <= t.len(),
    ensures
        scan_back(t.push(c), j) == scan_back(t, j),
    decreases j,
{
    if 0 < j {
        assert(t.push(c)[j - 1] == t[j - 1]);
        lemma_scan_back_push(t, c, j - 1);
    }
}

/// Whitespace added at the end of a text does not change its trimmed form.
proof fn lemma_trim_push_ws(s: Seq<char>, c: char)
    requires
        is_ws(c),
    ensures
        trim_spec(s.push(c)) == trim_spec(s),
{
    lemma_scan(s, 0, true);
    lemma_scan_push(s, c, 0, true);
    let u = s.push(c);
    let k = scan(s, 0, true);
    if k < s.len() {
        let t = trim_start_spec(s);
        assert(trim_start_spec(u) =~= t.push(c));
        assert(t.push(c)[t.len() as int] == c);
        assert(scan_back(t.push(c), t.len() + 1int) == scan_back(t.push(c), t.len() as int));
        lemma_scan_back_push(t, c, t.len() as int);
        lemma_scan_back(t, t.len() as int);
        assert(t.push(c).take(scan_back(t, t.len() as int)) =~= t.take(scan_back(t, t.len() as int)));
    } else {
        assert(trim_start_spec(u) =~= Seq::<char>::empty());
        assert(trim_start_spec(s) =~= Seq::<char>::empty());
    }
}

/// Dropping a final `\r` from a line does not change what it says.
proof fn lemma_key_strip_cr(l: Seq<char>)
    ensures
        line_key(strip_cr(l)) == line_key(l),
{
    if l.len() > 0 && l.last() == '\r' {
        let m = l.drop_last();
        assert(l =~= m + seq!['\r']);
        assert(m.push('\r') =~= l);
        lemma_index_of(m, '#', 0);
        if index_of(m, '#', 0) < m.len() {
            lemma_index_of_prefix(m, seq!['\r'], '#', 0);
            assert(l.take(index_of(m, '#', 0)) =~= m.take(index_of(m, '#', 0)));
        } else {
            lemma_index_of_append_absent(m, seq!['\r'], '#', 0);
            assert(l[m.len() as int] == '\r');
            assert(index_of(l, '#', m.len() + 1int) == l.len());
            assert(strip_comment_spec(l) =~= l);
            assert(strip_comment_spec(m) =~= m);
            lemma_trim_push_ws(m, '\r');
        }
    }
}

/// A line's effect on the reading depends only on what it says.
proof fn lemma_step_by_key(st: ConfigState, l1: Seq<char>, l2: Seq<char>)
    requires
        line_key(l1) == line_key(l2),
    ensures
        step_spec(st, l1) == step_spec(st, l2),
{
}

/// Ending a text with one more `\n` does not change its reading.
proof fn lemma_run_lines_newline(st: ConfigState, a: Seq<char>)
    ensures
        run_lines(st, lines_spec(a + seq!['\n'])) == run_lines(st, lines_spec(a)),
    decreases a.len(),
{
    let an = a + seq!['\n'];
    if a.len() == 0 {
        assert(an =~= seq!['\n']);
        assert(index_of(an, '\n', 0) == 0);
        assert(an.take(0) =~= Seq::<char>::empty());
        assert(an.skip(1) =~= Seq::<char>::empty());
        let e = Seq::<char>::empty();
        assert(lines_spec(e) =~= Seq::<Seq<char>>::empty());
        assert(lines_spec(an) == seq![strip_cr(an.take(0))] + lines_spec(an.skip(1)));
        assert(lines_spec(an) =~= seq![strip_cr(e)]);
        assert(line_key(strip_cr(e)) == Seq::<char>::empty()) by {
            assert(strip_cr(e) == e);
            lemma_index_of(e, '#', 0);
            assert(strip_comment_spec(e) =~= e);
            law_trim(e);
        }
        assert(lines_spec(an).drop_first() =~= Seq::<Seq<char>>::empty());
    } else {
        lemma_index_of(a, '\n', 0);
        let i = index_of(a, '\n', 0);
        if i >= a.len() {
            lemma_index_of_append_absent(a, seq!['\n'], '\n', 0);
            assert(an[a.len() as int] == '\n');
            assert(index_of(an, '\n', 0) == a.len());
            assert(an.take(a.len() as int) =~= a);
            assert(an.skip(a.len() + 1int) =~= Seq::<char>::empty());
            assert(lines_spec(Seq::<char>::empty()) =~= Seq::<Seq<char>>::empty());
            assert(lines_spec(an) == seq![strip_cr(an.take(a.len() as int))] + lines_spec(
                an.skip(a.len() + 1int),
            ));
            assert(lines_spec(an) =~= seq![strip_cr(a)]);
            assert(lines_spec(a) =~= seq![a]);
            lemma_key_strip_cr(a);
            lemma_step_by_key(st, strip_cr(a), a);
            assert(lines_spec(an).drop_first() =~= Seq::<Seq<char>>::empty());
            assert(lines_spec(a).drop_first() =~= Seq::<Seq<char>>::empty());
        } else {
            lemma_index_of_prefix(a, seq!['\n'], '\n', 0);
            let rest = a.skip(i + 1);
            assert(an.take(i) =~= a.take(i));
            assert(an.skip(i + 1) =~= rest + seq!['\n']);
            let first = strip_cr(a.take(i));
            assert(lines_spec(an) == seq![first] + lines_spec(rest + seq!['\n']));
            assert(lines_spec(a) == seq![first] + lines_spec(rest));
            assert(lines_spec(an).drop_first() =~= lines_spec(rest + seq!['\n']));
            assert(lines_spec(a).drop_first() =~= lines_spec(rest));
            lemma_run_lines_newline(step_spec(st, first), rest);
        }
    }
}

/// Whether a line leaves variables and mode blocks alone: once its comment
/// and surrounding whitespace are gone, it is not `}` and its first word is
/// neither `set` nor `mode`.
pub open spec fn keeps_scope(line: Seq<char>) -> bool {
    let k = line_key(line);
    &&& k != "}"@
    &&& first_token_and_rest_spec(k).0 != "set"@
    &&& first_token_and_rest_spec(k).0 != "mode"@
}

proof fn lemma_run_keeps_scope(st: ConfigState, ls: Seq<Seq<char>>)
    requires
        forall|i: int| 0 <= i < ls.len() ==> keeps_scope(#[trigger] ls[i]),
    ensures
        run_lines(st, ls).vars == st.vars,
        run_lines(st, ls).modes == st.modes,
    decreases ls.len(),
{
    if ls.len() > 0 {
        assert(keeps_scope(ls[0]));
        assert forall|i: int| 0 <= i < ls.drop_first().len() implies keeps_scope(
            #[trigger] ls.drop_first()[i],
        ) by {
            assert(ls.drop_first()[i] == ls[i + 1]);
        }
        lemma_run_keeps_scope(step_spec(st, ls[0]), ls.drop_first());
    }
}

/// The same state with no bindings read yet.
pub open spec fn without_bindings(st: ConfigState) -> ConfigState {
    ConfigState { bindings: Seq::<BindingView>::empty(), ..st }
}

/// The bindings already read take no part in reading further lines.
proof fn lemma_bindings_independent(st: ConfigState, ls: Seq<Seq<char>>)
    ensures
        run_lines(st, ls) == (ConfigState {
            bindings: st.bindings + run_lines(without_bindings(st), ls).bindings,
            ..run_lines(without_bindings(st), ls)
        }),
    decreases ls.len(),
{
    let st0 = without_bindings(st);
    if ls.len() == 0 {
        assert(st.bindings + st0.bindings =~= st.bindings);
        assert(run_lines(st, ls) =~= (ConfigState {
            bindings: st.bindings + run_lines(st0, ls).bindings,
            ..run_lines(st0, ls)
        }));
    } else {
        let l = ls[0];
        let rest = ls.drop_first();
        let s1 = step_spec(st0, l);
        let t1 = step_spec(st, l);
        assert(t1 =~= (ConfigState { bindings: st.bindings + s1.bindings, ..s1 }));
        assert(without_bindings(t1) =~= without_bindings(s1));
        lemma_bindings_independent(t1, rest);
        lemma_bindings_independent(s1, rest);
        let r = run_lines(without_bindings(s1), rest);
        assert(st.bindings + s1.bindings + r.bindings =~= st.bindings + (s1.bindings + r.bindings));
        assert(run_lines(st, ls) =~= (ConfigState {
            bindings: st.bindings + run_lines(st0, ls).bindings,
            ..run_lines(st0, ls)
        }));
    }
}

/// A configuration whose lines leave variables and mode blocks alone, a line
/// end, then any configuration: the bindings read are those of the first part
/// followed by those of the second.
pub proof fn law_config_concat(a: Seq<char>, b: Seq<char>)
    requires
        forall|i: int| 0 <= i < lines_spec(a).len() ==> keeps_scope(#[trigger] lines_spec(a)[i]),
    ensures
        parse_config_spec(a + seq!['\n'] + b) == parse_config_spec(a) + parse_config_spec(b),
{
    let an = a + seq!['\n'];
    assert(an.last() == '\n');
    law_lines_append(an, b);
    law_run_lines_append(initial_state(), lines_spec(an), lines_spec(b));
    lemma_run_lines_newline(initial_state(), a);
    lemma_run_keeps_scope(initial_state(), lines_spec(a));
    let sa = run_lines(initial_state(), lines_spec(a));
    assert(without_bindings(sa) =~= initial_state());
    lemma_bindings_independent(sa, lines_spec(b));
}

proof fn lemma_index_of_absent(s: Seq<char>, c: char)
    requires
        forall|k: int| 0 <= k < s.len() ==> #[trigger] s[k] != c,
    ensures
        index_of(s, c, 0) == s.len(),
{
    lemma_index_of(s, c, 0);
    if index_of(s, c, 0) < s.len() {
        assert(s[index_of(s, c, 0)] == c);
    }
}

/// The lines of a text that starts with a line `m` and then is empty or goes on
/// after a line end.
proof fn lemma_lines_first(m: Seq<char>, q: Seq<char>)
    requires
        forall|k: int| 0 <= k < m.len() ==> #[trigger] m[k] != '\n',
        q.len() > 0,
        q[0] == '\n',
    ensures
        lines_spec(m + q) == seq![strip_cr(m)] + lines_spec(q.skip(1)),
{
    lemma_index_of_absent(m, '\n');
    lemma_index_of_append_absent(m, q, '\n', 0);
    assert((m + q)[m.len() as int] == '\n');
    assert((m + q).take(m.len() as int) =~= m);
    assert((m + q).skip(m.len() + 1int) =~= q.skip(1));
}

/// A line `l` without `#` and the same line with `#` and a comment after it
/// are read alike, whatever follows them after a line end (`\n` or `\r\n`).
proof fn lemma_comment_line(st: ConfigState, l: Seq<char>, c: Seq<char>, q: Seq<char>)
    requires
        forall|k: int| 0 <= k < l.len() ==> #[trigger] l[k] != '#' && l[k] != '\n',
        forall|k: int| 0 <= k < c.len() ==> #[trigger] c[k] != '\n',
        q.len() == 0 || q[0] == '\n' || (q.len() >= 2 && q[0] == '\r' && q[1] == '\n'),
    ensures
        run_lines(st, lines_spec(l + seq!['#'] + c + q)) == run_lines(st, lines_spec(l + q)),
{
    let m = l + seq!['#'] + c;
    assert(m =~= l + (seq!['#'] + c));
    assert forall|k: int| 0 <= k < m.len() implies #[trigger] m[k] != '\n' by {
        if k < l.len() {
            assert(m[k] == l[k]);
        } else if k > l.len() {
            assert(m[k] == c[k - l.len() - 1]);
        }
    }
    assert forall|k: int| 0 <= k < l.len() implies #[trigger] l[k] != '#' by {
        assert(l[k] != '#' && l[k] != '\n');
    }
    assert forall|k: int| 0 <= k < l.len() implies #[trigger] l[k] != '\n' by {
        assert(l[k] != '#' && l[k] != '\n');
    }
    lemma_index_of_absent(l, '#');
    lemma_index_of_append_absent(l, seq!['#'] + c, '#', 0);
    assert(m[l.len() as int] == '#');
    assert(strip_comment_spec(m) =~= l);
    assert(strip_comment_spec(l) =~= l);
    assert(line_key(m) == line_key(l));
    if q.len() == 0 {
        assert(m + q =~= m);
        assert(l + q =~= l);
        lemma_index_of_absent(m, '\n');
        assert(lines_spec(m) =~= seq![m]);
        assert(lines_spec(m).drop_first() =~= Seq::<Seq<char>>::empty());
        if l.len() == 0 {
            assert(lines_spec(l) =~= Seq::<Seq<char>>::empty());
            law_trim(l);
            assert(line_key(m).len() == 0);
            law_blank_lines_ignored(st, m);
        } else {
            lemma_index_of_absent(l, '\n');
            assert(lines_spec(l) =~= seq![l]);
            assert(lines_spec(l).drop_first() =~= Seq::<Seq<char>>::empty());
            lemma_step_by_key(st, m, l);
        }
    } else if q[0] == '\r' {
        let q2 = q.skip(1);
        let mr = m + seq!['\r'];
        let lr = l + seq!['\r'];
        assert(m + q =~= mr + q2);
        assert(l + q =~= lr + q2);
        assert forall|k: int| 0 <= k < mr.len() implies #[trigger] mr[k] != '\n' by {
            if k < m.len() {
                assert(mr[k] == m[k]);
            }
        }
        assert forall|k: int| 0 <= k < lr.len() implies #[trigger] lr[k] != '\n' by {
            if k < l.len() {
                assert(lr[k] == l[k]);
            }
        }
        lemma_lines_first(mr, q2);
        lemma_lines_first(lr, q2);
        assert(strip_cr(mr) =~= m);
        assert(strip_cr(lr) =~= l);
        lemma_step_by_key(st, m, l);
        assert(lines_spec(mr + q2).drop_first() =~= lines_spec(q2.skip(1)));
        assert(lines_spec(lr + q2).drop_first() =~= lines_spec(q2.skip(1)));
    } else {
        lemma_lines_first(m, q);
        lemma_lines_first(l, q);
        lemma_key_strip_cr(m);
        lemma_key_strip_cr(l);
        lemma_step_by_key(st, strip_cr(m), strip_cr(l));
        assert(lines_spec(m + q).drop_first() =~= lines_spec(q.skip(1)));
        assert(lines_spec(l + q).drop_first() =~= lines_spec(q.skip(1)));
    }
}

/// A `#` comment added at the end of a line that has none changes nothing that
/// is read: `p` ends at a line start, `l` is the rest of that line, and `q` is
/// empty or starts with the line end, `\n` or `\r\n`.
pub proof fn law_trailing_comment(p: Seq<char>, l: Seq<char>, c: Seq<char>, q: Seq<char>)
    requires
        p.len() == 0 || p.last() == '\n',
        forall|k: int| 0 <= k < l.len() ==> #[trigger] l[k] != '#' && l[k] != '\n',
        forall|k: int| 0 <= k < c.len() ==> #[trigger] c[k] != '\n',
        q.len() == 0 || q[0] == '\n' || (q.len() >= 2 && q[0] == '\r' && q[1] == '\n'),
    ensures
        parse_config_spec(p + l + seq!['#'] + c + q) == parse_config_spec(p + l + q),
{
    let x1 = l + seq!['#'] + c + q;
    let x2 = l + q;
    assert(p + l + seq!['#'] + c + q =~= p + x1);
    assert(p + l + q =~= p + x2);
    law_lines_append(p, x1);
    law_lines_append(p, x2);
    law_run_lines_append(initial_state(), lines_spec(p), lines_spec(x1));
    law_run_lines_append(initial_state(), lines_spec(p), lines_spec(x2));
    lemma_comment_line(run_lines(initial_state(), lines_spec(p)), l, c, q);
}

proof fn lemma_scan_exact(s: Seq<char>, i: int, k: int, ws: bool)
    requires
        0 <= i <= k <= s.len(),
        forall|j: int| i <= j < k ==> is_ws(#[trigger] s[j]) == ws,
        k == s.len() || is_ws(s[k]) != ws,
    ensures
        scan(s, i, ws) == k,
    decreases k - i,
{
    if i < k {
        lemma_scan_exact(s, i + 1, k, ws);
    }
}

proof fn lemma_scan_shift(a: Seq<char>, b: Seq<char>, i: int, ws: bool)
    requires
        0 <= i <= b.len(),
    ensures
        scan(a + b, a.len() + i, ws) == a.len() + scan(b, i, ws),
    decreases b.len() - i,
{
    if i < b.len() {
        assert((a + b)[a.len() + i] == b[i]);
        lemma_scan_shift(a, b, i + 1, ws);
    }
}

/// Text that starts without whitespace keeps its start when trimmed at the start.
proof fn lemma_trim_start_id(s: Seq<char>)
    requires
        s.len() == 0 || !is_ws(s[0]),
    ensures
        trim_start_spec(s) == s,
{
    assert(s.skip(0) =~= s);
}

/// Text that neither starts nor ends with whitespace is its own trimmed form.
proof fn lemma_trim_id(s: Seq<char>)
    requires
        s.len() == 0 || (!is_ws(s[0]) && !is_ws(s.last())),
    ensures
        trim_spec(s) == s,
{
    lemma_trim_start_id(s);
    if s.len() > 0 {
        assert(scan_back(s, s.len() as int) == s.len());
    }
    assert(s.take(s.len() as int) =~= s);
}

/// A word, a space and a rest: the word is the first token, and the rest,
/// without its leading whitespace, is what follows.
proof fn lemma_ftr_word(w: Seq<char>, r: Seq<char>)
    requires
        w.len() > 0,
        forall|k: int| 0 <= k < w.len() ==> !is_ws(#[trigger] w[k]),
    ensures
        first_token_and_rest_spec(w + seq![' '] + r) == (w, trim_start_spec(r)),
{
    let a = w + seq![' '];
    let s = a + r;
    assert(s[0] == w[0]);
    assert(scan(s, 0, true) == 0);
    assert forall|j: int| 0 <= j < w.len() implies is_ws(#[trigger] s[j]) == false by {
        assert(s[j] == w[j]);
    }
    assert(s[w.len() as int] == ' ');
    lemma_scan_exact(s, 0, w.len() as int, false);
    assert(scan(s, w.len() as int, true) == scan(s, w.len() + 1int, true));
    lemma_scan_shift(a, r, 0, true);
    lemma_scan(r, 0, true);
    assert(s.subrange(0, w.len() as int) =~= w);
    assert(s.subrange(a.len() + scan(r, 0, true), s.len() as int) =~= r.skip(scan(r, 0, true)));
}

/// A word without whitespace is its own first token, with nothing after it.
proof fn lemma_ftr_single(w: Seq<char>)
    requires
        w.len() > 0,
        forall|k: int| 0 <= k < w.len() ==> !is_ws(#[trigger] w[k]),
    ensures
        first_token_and_rest_spec(w) == (w, Seq::<char>::empty()),
{
    assert(scan(w, 0, true) == 0);
    lemma_scan_exact(w, 0, w.len() as int, false);
    assert(scan(w, w.len() as int, true) == w.len());
    assert(w.subrange(0, w.len() as int) =~= w);
    assert(w.subrange(w.len() as int, w.len() as int) =~= Seq::<char>::empty());
}

/// `set NAME VALUE` defines `NAME` as the whole rest of the line, inner
/// whitespace kept, and touches nothing else: after it the variables map
/// `NAME` to `VALUE`.
pub proof fn law_set_defines_rest_of_line(st: ConfigState, name: Seq<char>, value: Seq<char>)
    requires
        name.len() > 0,
        forall|k: int| 0 <= k < name.len() ==> !is_ws(#[trigger] name[k]) && name[k] != '#',
        forall|k: int| 0 <= k < value.len() ==> #[trigger] value[k] != '#',
        value.len() == 0 || (!is_ws(value[0]) && !is_ws(value.last())),
    ensures
        step_spec(st, seq!['s', 'e', 't', ' '] + name + seq![' '] + value) == (ConfigState {
            vars: st.vars.insert(name, value),
            ..st
        }),
{
    reveal_strlit("set");
    reveal_strlit("}");
    let w = seq!['s', 'e', 't'];
    assert(w =~= "set"@);
    let line = seq!['s', 'e', 't', ' '] + name + seq![' '] + value;
    assert forall|k: int| 0 <= k < line.len() implies #[trigger] line[k] != '#' by {
        if 4 <= k < 4 + name.len() {
            assert(line[k] == name[k - 4]);
        } else if k > 4 + name.len() {
            assert(line[k] == value[k - 5 - name.len()]);
        }
    }
    lemma_index_of_absent(line, '#');
    assert(strip_comment_spec(line) =~= line);
    let r = name + seq![' '] + value;
    assert(r[0] == name[0]);
    lemma_trim_start_id(r);
    if value.len() > 0 {
        assert(line =~= w + seq![' '] + r);
        assert(line[0] == 's');
        assert(line.last() == value.last());
        lemma_trim_id(line);
        assert(line.len() > 1 && line[0] != "}"@[0]);
        lemma_ftr_word(w, r);
        lemma_trim_start_id(value);
        lemma_ftr_word(name, value);
    } else {
        let short = w + seq![' '] + name;
        assert(line =~= short.push(' '));
        lemma_trim_push_ws(short, ' ');
        assert(short[0] == 's');
        assert(short.last() == name.last());
        lemma_trim_id(short);
        assert(short.len() > 1 && short[0] != "}"@[0]);
        lemma_trim_start_id(name);
        lemma_ftr_word(w, name);
        lemma_ftr_single(name);
        assert(value =~= Seq::<char>::empty());
    }
    assert(step_spec(st, line) =~= (ConfigState { vars: st.vars.insert(name, value), ..st }));
}

/// Every leading token that starts with `--` is an option of `bindsym` and is
/// passed over: the binding read from such a token, a space and `r` is the one
/// read from `r`.
pub proof fn law_bindsym_skips_option(
    opt: Seq<char>,
    r: Seq<char>,
    vars: Map<Seq<char>, Seq<char>>,
    mode: Option<Seq<char>>,
)
    requires
        opt.len() >= 2,
        opt[0] == '-',
        opt[1] == '-',
        forall|k: int| 0 <= k < opt.len() ==> !is_ws(#[trigger] opt[k]),
    ensures
        parse_bindsym_spec(opt + seq![' '] + r, vars, mode) == parse_bindsym_spec(r, vars, mode),
{
    let s = opt + seq![' '] + r;
    assert(s[0] == '-');
    assert(!is_ws(s[0]));
    lemma_trim_start_id(s);
    lemma_ftr_word(opt, r);
    crate::lexer::lemma_first_token_and_rest(s);
}

/// The filter shows a binding whose lowered mode name holds the trimmed,
/// lowered filter text, here at position `i`.
pub proof fn law_filter_shows_mode(filter: Seq<char>, b: BindingView, m: Seq<char>, i: int)
    requires
        b.mode == Some(m),
        0 <= i,
        i + lowercase(trim_spec(filter)).len() <= lowercase(m).len(),
        lowercase(m).subrange(i, i + lowercase(trim_spec(filter)).len()) == lowercase(
            trim_spec(filter),
        ),
    ensures
        binding_matches(filter, b),
{
}

/// The filter shows a binding whose lowered keys hold the trimmed, lowered
/// filter text, here at position `i`.
pub proof fn law_filter_shows_keys(filter: Seq<char>, b: BindingView, i: int)
    requires
        0 <= i,
        i + lowercase(trim_spec(filter)).len() <= lowercase(b.keys).len(),
        lowercase(b.keys).subrange(i, i + lowercase(trim_spec(filter)).len()) == lowercase(
            trim_spec(filter),
        ),
    ensures
        binding_matches(filter, b),
{
}

/// The filter shows a binding whose lowered command holds the trimmed, lowered
/// filter text, here at position `i`.
pub proof fn law_filter_shows_command(filter: Seq<char>, b: BindingView, i: int)
    requires
        0 <= i,
        i + lowercase(trim_spec(filter)).len() <= lowercase(b.command).len(),
        lowercase(b.command).subrange(i, i + lowercase(trim_spec(filter)).len()) == lowercase(
            trim_spec(filter),
        ),
    ensures
        binding_matches(filter, b),
{
}

/// A binding is shown only when the trimmed, lowered filter is empty or stands
/// somewhere in its lowered keys, command or mode name.
pub proof fn law_filter_shows_only_matches(filter: Seq<char>, b: BindingView)
    requires
        binding_matches(filter, b),
    ensures
        ({
            let n = lowercase(trim_spec(filter));
            let mode = crate::viewer::mode_text(b.mode);
            ||| n.len() == 0
            ||| exists|i: int| 0 <= i && i + n.len() <= lowercase(b.keys).len()
                && #[trigger] lowercase(b.keys).subrange(i, i + n.len()) == n
            ||| exists|i: int| 0 <= i && i + n.len() <= lowercase(b.command).len()
                && #[trigger] lowercase(b.command).subrange(i, i + n.len()) == n
            ||| exists|i: int| 0 <= i && i + n.len() <= lowercase(mode).len()
                && #[trigger] lowercase(mode).subrange(i, i + n.len()) == n
        }),
{
}

/// ASCII letters, digits and `_`: the characters of a variable name.
pub open spec fn is_name_char(c: char) -> bool {
    ||| '0' <= c <= '9'
    ||| 'A' <= c <= 'Z'
    ||| 'a' <= c <= 'z'
    ||| c == '_'
}

proof fn lemma_subst_copy_to(b: Seq<u8>, i: int, e: int, vars: Map<Seq<char>, Seq<char>>)
    requires
        0 <= i <= e <= b.len(),
        forall|j: int| i <= j < e ==> #[trigger] b[j] != 0x24u8,
    ensures
        subst_from(b, i, vars) == latin1(b.subrange(i, e)) + subst_from(b, e, vars),
    decreases e - i,
{
    if i < e {
        lemma_subst_copy_to(b, i + 1, e, vars);
        assert(latin1(b.subrange(i, e)) =~= seq![b[i] as char] + latin1(b.subrange(i + 1, e)));
    } else {
        assert(latin1(b.subrange(i, e)) =~= Seq::<char>::empty());
    }
}

proof fn lemma_name_end_exact(b: Seq<u8>, j: int, e: int)
    requires
        0 <= j <= e <= b.len(),
        forall|k: int| j <= k < e ==> is_name_byte(#[trigger] b[k]),
        e == b.len() || !is_name_byte(b[e]),
    ensures
        name_end(b, j) == e,
    decreases e - j,
{
    if j < e {
        lemma_name_end_exact(b, j + 1, e);
    }
}

/// `$NAME` for a defined name made of ASCII letters, digits and `_` is replaced
/// by the name's value, when what follows it cannot go on the name; the ASCII
/// text around it, free of `$`, is kept.
pub proof fn law_substitute_defined_name(
    p: Seq<char>,
    name: Seq<char>,
    t: Seq<char>,
    vars: Map<Seq<char>, Seq<char>>,
)
    requires
        vstd::utf8::is_ascii_chars(p),
        vstd::utf8::is_ascii_chars(t),
        forall|k: int| 0 <= k < p.len() ==> #[trigger] p[k] != '$',
        forall|k: int| 0 <= k < t.len() ==> #[trigger] t[k] != '$',
        name.len() > 0,
        forall|k: int| 0 <= k < name.len() ==> is_name_char(#[trigger] name[k]),
        t.len() == 0 || !is_name_char(t[0]),
        vars.contains_key(seq!['$'] + name),
    ensures
        substitute_vars_spec(p + seq!['$'] + name + t, vars) == p + vars[seq!['$'] + name] + t,
{
    let s = p + seq!['$'] + name + t;
    let pl = p.len() as int;
    let e = pl + 1 + name.len();
    assert forall|j: int| 0 <= j < s.len() implies '\0' <= #[trigger] s[j] <= '\u{7f}' by {
        if j < pl {
            assert(s[j] == p[j]);
        } else if j == pl {
            assert(s[j] == '$');
        } else if j < e {
            assert(s[j] == name[j - pl - 1]);
            assert(is_name_char(name[j - pl - 1]));
        } else {
            assert(s[j] == t[j - e]);
        }
    }
    assert(vstd::utf8::is_ascii_chars(s));
    lemma_ascii_latin1(s);
    let b = vstd::utf8::encode_utf8(s);
    assert forall|j: int| 0 <= j < pl implies #[trigger] b[j] != 0x24u8 by {
        assert(b[j] == s[j] as u8);
        assert(s[j] == p[j]);
        assert('\0' <= s[j] <= '\u{7f}');
    }
    lemma_subst_copy_to(b, 0, pl, vars);
    assert(b[pl] == s[pl] as u8);
    assert(s[pl] == '$');
    assert(b[pl] == 0x24u8);
    assert forall|k: int| pl + 1 <= k < e implies is_name_byte(#[trigger] b[k]) by {
        assert(b[k] == s[k] as u8);
        assert(s[k] == name[k - pl - 1]);
        assert(is_name_char(s[k]));
    }
    if e < b.len() {
        assert(b[e] == s[e] as u8);
        assert(s[e] == t[0]);
        assert('\0' <= s[e] <= '\u{7f}');
        assert(!is_name_byte(b[e]));
    }
    lemma_name_end_exact(b, pl + 1, e);
    assert(latin1(b.subrange(pl + 1, e)) =~= latin1(b).subrange(pl + 1, e));
    assert(s.subrange(pl + 1, e) =~= name);
    assert(var_key(b, pl) =~= seq!['$'] + name);
    assert forall|j: int| e <= j < b.len() implies #[trigger] b[j] != 0x24u8 by {
        assert(b[j] == s[j] as u8);
        assert(s[j] == t[j - e]);
        assert('\0' <= s[j] <= '\u{7f}');
    }
    lemma_subst_copy_to(b, e, b.len() as int, vars);
    assert(subst_from(b, b.len() as int, vars) =~= Seq::<char>::empty());
    assert(latin1(b.subrange(0, pl)) =~= latin1(b).subrange(0, pl));
    assert(latin1(b.subrange(e, b.len() as int)) =~= latin1(b).subrange(e, b.len() as int));
    assert(s.subrange(0, pl) =~= p);
    assert(s.subrange(e, s.len() as int) =~= t);
    assert(substitute_vars_spec(s, vars) =~= p + vars[seq!['$'] + name] + t);
}

} // verus!
