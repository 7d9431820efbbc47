//! Substitution of `$name` variables in a command line.
//!
//! The command is read byte by byte in its UTF-8 encoding, and each byte that is
//! not part of a substituted variable is copied as the character with that
//! byte's code (so characters outside ASCII come out as their UTF-8 bytes read
//! as Latin-1).
use vstd::prelude::*;
use vstd::string::*;

use crate::text::push_char;
use crate::vars::Vars;

verus! {

/// ASCII letters and digits, and `_`.
pub open spec fn is_name_byte(b: u8) -> bool {
    ||| 0x30 <= b <= 0x39
    ||| 0x41 <= b <= 0x5a
    ||| 0x61 <= b <= 0x7a
    ||| b == 0x5f
}

/// The end of the run of name bytes that starts at `j`.
pub open spec fn name_end(b: Seq<u8>, j: int) -> int
    decreases b.len() - j,
{
    if 0 <= j < b.len() && is_name_byte(b[j]) {
        name_end(b, j + 1)
    } else {
        j
    }
}

/// Each byte as the character with that code.
pub open spec fn latin1(bs: Seq<u8>) -> Seq<char> {
    bs.map_values(|x: u8| x as char)
}

/// The variable name, `$` included, that the `$` at `i` introduces.
pub open spec fn var_key(b: Seq<u8>, i: int) -> Seq<char> {
    seq!['$'] + latin1(b.subrange(i + 1, name_end(b, i + 1)))
}

/// The substituted text of the bytes from `i` on.
pub open spec fn subst_from(b: Seq<u8>, i: int, vars: Map<Seq<char>, Seq<char>>) -> Seq<char>
    decreases b.len() - i,
{
    if i < 0 || i >= b.len() {
        Seq::<char>::empty()
    } else if b[i] == 0x24u8 && name_end(b, i + 1) > i + 1 && vars.contains_key(var_key(b, i)) {
        proof {
            lemma_name_end(b, i + 1);
        }
        vars[var_key(b, i)] + subst_from(b, name_end(b, i + 1), vars)
    } else {
        seq![b[i] as char] + subst_from(b, i + 1, vars)
    }
}

/// A command with every `$name` that `vars` defines replaced by its value.
pub open spec fn substitute_vars_spec(s: Seq<char>, vars: Map<Seq<char>, Seq<char>>) -> Seq<char> {
    subst_from(vstd::utf8::encode_utf8(s), 0, vars)
}

pub proof fn lemma_name_end(b: Seq<u8>, j: int)
    requires
        0 <= j <= b.len(),
    ensures
        j <= name_end(b, j) <= b.len(),
        forall|k: int| j <= k < name_end(b, j) ==> is_name_byte(#[trigger] b[k]),
    decreases b.len() - j,
{
    if j < b.len() && is_name_byte(b[j]) {
        lemma_name_end(b, j + 1);
    }
}

fn is_name_byte_exec(b: u8) -> (r: bool)
    ensures
        r == is_name_byte(b),
{
    (0x30 <= b && b <= 0x39) || (0x41 <= b && b <= 0x5a) || (0x61 <= b && b <= 0x7a) || b == 0x5f
}

/// Replaces each `$name` (ASCII letters, digits and `_`) that `vars` defines by
/// its value; everything else is copied byte by byte.
pub fn substitute_vars(s: &str, vars: &Vars) -> (r: String)
    ensures
        r@ == substitute_vars_spec(s@, vars@),
{
    let bytes = s.as_bytes();
    let ghost b = bytes@;
    let mut out = String::new();
    let mut i: usize = 0;
    while i < bytes.len()
        invariant
            b == bytes@,
            b == vstd::utf8::encode_utf8(s@),
            i <= bytes.len(),
            out@ + subst_from(b, i as int, vars@) == subst_from(b, 0, vars@),
        decreases bytes.len() - i,
    {
        if bytes[i] == 0x24u8 {
            let mut name = String::new();
            let mut j = i + 1;
            proof {
                lemma_name_end(b, i + 1);
            }
            while j < bytes.len() && is_name_byte_exec(bytes[j])
                invariant
                    b == bytes@,
                    i < bytes.len(),
                    i + 1 <= j <= bytes.len(),
                    name_end(b, j as int) == name_end(b, i + 1),
                    name@ == latin1(b.subrange(i + 1, j as int)),
                decreases bytes.len() - j,
            {
                push_char(&mut name, bytes[j] as char);
                j += 1;
                assert(name@ =~= latin1(b.subrange(i + 1, j as int)));
            }
            if j > i + 1 {
                let mut key = String::new();
                push_char(&mut key, '$');
                key.append(name.as_str());
                assert(key@ =~= var_key(b, i as int));
                match vars.get(key.as_str()) {
                    Some(value) => {
                        out.append(value.as_str());
                        assert(subst_from(b, i as int, vars@) == value@ + subst_from(
                            b,
                            j as int,
                            vars@,
                        ));
                        assert(out@ + subst_from(b, j as int, vars@) =~= subst_from(
                            b,
                            0,
                            vars@,
                        ));
                        i = j;
                        continue ;
                    },
                    None => {},
                }
            }
        }
        let c = bytes[i] as char;
        push_char(&mut out, c);
        assert(subst_from(b, i as int, vars@) == seq![c] + subst_from(b, i + 1, vars@));
        assert(out@ + subst_from(b, i + 1, vars@) =~= subst_from(b, 0, vars@));
        i += 1;
    }
    assert(out@ =~= out@ + subst_from(b, i as int, vars@));
    out
}

} // verus!
