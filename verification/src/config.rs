//! Reading key bindings out of a sway configuration.
use vstd::prelude::*;
use vstd::string::*;

use crate::keys::{display_keys, display_keys_spec, resolve_keys, resolve_keys_spec};
use crate::lexer::{
    first_token_and_rest, first_token_and_rest_spec, lemma_first_token_and_rest, quoted_token,
    quoted_token_spec, strip_comment, strip_comment_spec,
};
use crate::subst::{substitute_vars, substitute_vars_spec};
use crate::text::{
    chars_of, index_of, index_of_char, lemma_index_of, str_eq, string_of, trim, trim_spec,
    trim_start, trim_start_spec,
};
use crate::vars::Vars;

verus! {

/// One `bindsym` of the configuration.
#[derive(Clone, Debug, PartialEq, Eq)]
pub struct Binding {
    /// The key combination, variables resolved and modifiers given display names.
    pub keys: String,
    /// The command, variables substituted.
    pub command: String,
    /// The mode block that the binding stands in, if any.
    pub mode: Option<String>,
}

/// A binding as plain text.
#[verifier::ext_equal]
pub struct BindingView {
    pub keys: Seq<char>,
    pub command: Seq<char>,
    pub mode: Option<Seq<char>>,
}

/// The text of an optional string.
pub open spec fn opt_view(o: Option<String>) -> Option<Seq<char>> {
    match o {
        Some(s) => Some(s@),
        None => None,
    }
}

/// The text of an optional borrowed string.
pub open spec fn opt_ref_view(o: Option<&String>) -> Option<Seq<char>> {
    match o {
        Some(s) => Some(s@),
        None => None,
    }
}

impl View for Binding {
    type V = BindingView;

    open spec fn view(&self) -> BindingView {
        BindingView { keys: self.keys@, command: self.command@, mode: opt_view(self.mode) }
    }
}

/// The bindings as plain text.
pub open spec fn bindings_view(bs: Seq<Binding>) -> Seq<BindingView> {
    bs.map_values(|b: Binding| b@)
}

/// Whether a token is an option such as `--release`.
pub open spec fn is_flag(t: Seq<char>) -> bool {
    t.len() >= 2 && t[0] == '-' && t[1] == '-'
}

/// `s` after its leading `--option` tokens.
pub open spec fn skip_flags(s: Seq<char>) -> Seq<char>
    decreases s.len(),
{
    let (t, tail) = first_token_and_rest_spec(s);
    if is_flag(t) {
        proof {
            lemma_first_token_and_rest(s);
        }
        skip_flags(tail)
    } else {
        s
    }
}

/// The binding that the text after `bindsym` describes: options skipped, then
/// the key combination and the command, both of which must be present.
pub open spec fn parse_bindsym_spec(
    rest: Seq<char>,
    vars: Map<Seq<char>, Seq<char>>,
    mode: Option<Seq<char>>,
) -> Option<BindingView> {
    let r = skip_flags(trim_start_spec(rest));
    let (keys, command) = first_token_and_rest_spec(r);
    if keys.len() == 0 || command.len() == 0 {
        None
    } else {
        Some(
            BindingView {
                keys: display_keys_spec(resolve_keys_spec(keys, vars)),
                command: substitute_vars_spec(command, vars),
                mode: mode,
            },
        )
    }
}

/// Reads the text after `bindsym`.
pub fn parse_bindsym(rest: &str, vars: &Vars, mode: Option<&String>) -> (r: Option<Binding>)
    ensures
        match r {
            Some(b) => parse_bindsym_spec(rest@, vars@, opt_ref_view(mode)) == Some(b@),
            None => parse_bindsym_spec(rest@, vars@, opt_ref_view(mode)) is None,
        },
{
    let ghost target = skip_flags(trim_start_spec(rest@));
    let mut rest = trim_start(rest);
    loop
        invariant
            skip_flags(rest@) == target,
        ensures
            rest@ == target,
        decreases rest@.len(),
    {
        let (token, tail) = first_token_and_rest(rest);
        proof {
            lemma_first_token_and_rest(rest@);
        }
        let tv = chars_of(token);
        if tv.len() >= 2 && tv[0] == '-' && tv[1] == '-' {
            rest = tail;
        } else {
            break;
        }
    }
    let (keys, command) = first_token_and_rest(rest);
    if keys.is_empty() || command.is_empty() {
        return None;
    }
    let keys = display_keys(resolve_keys(keys, vars).as_str());
    let command = substitute_vars(command, vars);
    let mode = match mode {
        Some(m) => Some(m.clone()),
        None => None,
    };
    Some(Binding { keys, command, mode })
}

/// What reading a configuration has gathered so far.
#[verifier::ext_equal]
pub struct ConfigState {
    pub vars: Map<Seq<char>, Seq<char>>,
    pub modes: Seq<Seq<char>>,
    pub bindings: Seq<BindingView>,
}

/// The state before the first line.
pub open spec fn initial_state() -> ConfigState {
    ConfigState {
        vars: Map::empty(),
        modes: Seq::<Seq<char>>::empty(),
        bindings: Seq::<BindingView>::empty(),
    }
}

/// The innermost open mode block.
pub open spec fn current_mode(modes: Seq<Seq<char>>) -> Option<Seq<char>> {
    if modes.len() > 0 {
        Some(modes.last())
    } else {
        None
    }
}

/// What one configuration line does to the state: `set $name value` defines a
/// variable, `mode "name" {` opens a mode block and `}` closes the innermost
/// one, `bindsym` adds a binding; other lines change nothing.
pub open spec fn step_spec(st: ConfigState, raw: Seq<char>) -> ConfigState {
    let line = trim_spec(strip_comment_spec(raw));
    if line.len() == 0 {
        st
    } else if line == "}"@ {
        ConfigState {
            modes: if st.modes.len() > 0 {
                st.modes.drop_last()
            } else {
                st.modes
            },
            ..st
        }
    } else {
        let (kw, rest) = first_token_and_rest_spec(line);
        if kw == "set"@ {
            let (name, value) = first_token_and_rest_spec(rest);
            if name.len() > 0 {
                ConfigState { vars: st.vars.insert(name, value), ..st }
            } else {
                st
            }
        } else if kw == "mode"@ && index_of(rest, '{', 0) < rest.len() {
            match quoted_token_spec(rest) {
                Some(name) => ConfigState { modes: st.modes.push(name), ..st },
                None => st,
            }
        } else if kw == "bindsym"@ {
            match parse_bindsym_spec(rest, st.vars, current_mode(st.modes)) {
                Some(b) => ConfigState { bindings: st.bindings.push(b), ..st },
                None => st,
            }
        } else {
            st
        }
    }
}

/// The lines of a text, as `str::lines` gives them: cut at each `\n`, a `\r`
/// right before the `\n` dropped, and no empty line after a final `\n`.
pub open spec fn lines_spec(s: Seq<char>) -> Seq<Seq<char>>
    decreases s.len(),
{
    if s.len() == 0 {
        Seq::<Seq<char>>::empty()
    } else {
        let i = index_of(s, '\n', 0);
        if i >= s.len() {
            seq![s]
        } else {
            proof {
                lemma_index_of(s, '\n', 0);
            }
            seq![strip_cr(s.take(i))] + lines_spec(s.skip(i + 1))
        }
    }
}

/// A line without one final `\r`.
pub open spec fn strip_cr(l: Seq<char>) -> Seq<char> {
    if l.len() > 0 && l.last() == '\r' {
        l.drop_last()
    } else {
        l
    }
}

/// The state after the given lines, in order.
pub open spec fn run_lines(st: ConfigState, ls: Seq<Seq<char>>) -> ConfigState
    decreases ls.len(),
{
    if ls.len() == 0 {
        st
    } else {
        run_lines(step_spec(st, ls[0]), ls.drop_first())
    }
}

/// The bindings that a configuration defines, in the order of their lines.
pub open spec fn parse_config_spec(src: Seq<char>) -> Seq<BindingView> {
    run_lines(initial_state(), lines_spec(src)).bindings
}

fn has_open_brace(s: &str) -> (r: bool)
    ensures
        r == (index_of(s@, '{', 0) < s@.len()),
{
    let v = chars_of(s);
    index_of_char(&v, '{', 0) < v.len()
}

struct Parser {
    vars: Vars,
    modes: Vec<String>,
    bindings: Vec<Binding>,
}

impl Parser {
    closed spec fn state(&self) -> ConfigState {
        ConfigState {
            vars: self.vars@,
            modes: self.modes@.map_values(|m: String| m@),
            bindings: bindings_view(self.bindings@),
        }
    }

    fn step(&mut self, raw: &str)
        ensures
            final(self).state() == step_spec(old(self).state(), raw@),
    {
        let line = trim(strip_comment(raw));
        if line.is_empty() {
            return ;
        }
        if str_eq(line, "}") {
            let ghost old_modes = self.modes@;
            if self.modes.len() > 0 {
                self.modes.pop();
                assert(self.modes@.map_values(|m: String| m@) =~= old_modes.map_values(
                    |m: String| m@,
                ).drop_last());
            }
            return ;
        }
        let (kw, rest) = first_token_and_rest(line);
        if str_eq(kw, "set") {
            let (name, value) = first_token_and_rest(rest);
            if !name.is_empty() {
                self.vars.insert(String::from_str(name), String::from_str(value));
            }
        } else if str_eq(kw, "mode") && has_open_brace(rest) {
            match quoted_token(rest) {
                Some(name) => {
                    let ghost old_modes = self.modes@;
                    self.modes.push(String::from_str(name));
                    assert(self.modes@.map_values(|m: String| m@) =~= old_modes.map_values(
                        |m: String| m@,
                    ).push(name@));
                },
                None => {},
            }
        } else if str_eq(kw, "bindsym") {
            let n = self.modes.len();
            let mode = if n > 0 {
                Some(&self.modes[n - 1])
            } else {
                None
            };
            assert(opt_ref_view(mode) == current_mode(self.state().modes));
            match parse_bindsym(rest, &self.vars, mode) {
                Some(b) => {
                    let ghost old_bs = self.bindings@;
                    self.bindings.push(b);
                    assert(bindings_view(self.bindings@) =~= bindings_view(old_bs).push(b@));
                },
                None => {},
            }
        }
    }
}

pub proof fn lemma_index_of_skip(s: Seq<char>, c: char, a: int, i: int)
    requires
        0 <= a <= s.len(),
        0 <= i <= s.len() - a,
    ensures
        index_of(s.skip(a), c, i) == index_of(s, c, a + i) - a,
    decreases s.len() - a - i,
{
    if i < s.len() - a && s[a + i] != c {
        lemma_index_of_skip(s, c, a, i + 1);
    }
}

/// Reads the bindings of a sway configuration: its `bindsym` lines, with
/// variables from its `set` lines and the mode of the enclosing `mode` block.
pub fn parse_config(src: &str) -> (r: Vec<Binding>)
    ensures
        bindings_view(r@) == parse_config_spec(src@),
{
    let v = chars_of(src);
    let mut p = Parser { vars: Vars::new(), modes: Vec::new(), bindings: Vec::new() };
    assert(p.state() =~= initial_state());
    assert(v@.skip(0) =~= v@);
    let mut start: usize = 0;
    while start < v.len()
        invariant
            start <= v.len(),
            v@ == src@,
            run_lines(p.state(), lines_spec(v@.skip(start as int))) == run_lines(
                initial_state(),
                lines_spec(v@),
            ),
        decreases v.len() - start,
    {
        let end = index_of_char(&v, '\n', start);
        let ghost t = v@.skip(start as int);
        proof {
            lemma_index_of_skip(v@, '\n', start as int, 0);
            lemma_index_of(v@, '\n', start as int);
        }
        if end < v.len() {
            let stop = if end > start && v[end - 1] == '\r' {
                end - 1
            } else {
                end
            };
            let line = string_of(&v, start, stop);
            assert(line@ =~= strip_cr(t.take(end - start)));
            assert(t.skip(end - start + 1) =~= v@.skip(end + 1));
            let ghost ls = lines_spec(t);
            assert(ls == seq![line@] + lines_spec(v@.skip(end + 1)));
            assert(ls[0] == line@);
            assert(ls.drop_first() =~= lines_spec(v@.skip(end + 1)));
            p.step(line.as_str());
            start = end + 1;
        } else {
            let line = string_of(&v, start, end);
            assert(line@ =~= t);
            assert(v@.skip(v.len() as int) =~= Seq::<char>::empty());
            let ghost ls = lines_spec(t);
            assert(ls == seq![line@]);
            assert(ls.drop_first() =~= Seq::<Seq<char>>::empty());
            p.step(line.as_str());
            start = end;
        }
    }
    p.bindings
}

} // verus!
