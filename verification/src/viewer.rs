//! The state of the binding viewer and its filter.
use vstd::prelude::*;
use vstd::string::*;

use crate::config::{Binding, BindingView};
use crate::text::{chars_of, contains_chars, contains_seq, trim, trim_spec};

verus! {

/// Names what `str::to_lowercase` returns for a string: its Unicode lowercase
/// form, in which most characters are lowered one by one and a capital sigma
/// is lowered according to its place in a word.
pub uninterp spec fn lowercase(s: Seq<char>) -> Seq<char>;

/// `str::to_lowercase`. Its result is named by `lowercase`; the empty string
/// lowers to the empty string. What each character maps to is left to the name.
#[verifier::external_body]
fn to_lowercase(s: &str) -> (r: String)
    ensures
        r@ == lowercase(s@),
        s@.len() == 0 ==> r@.len() == 0,
{
    s.to_lowercase()
}

/// The text that a binding's mode is searched in: its name, or nothing.
pub open spec fn mode_text(mode: Option<Seq<char>>) -> Seq<char> {
    match mode {
        Some(m) => m,
        None => Seq::<char>::empty(),
    }
}

/// Whether the filtered list shows a binding: the filter, trimmed and lowered,
/// is empty or occurs in the lowered keys, command or mode.
pub open spec fn binding_matches(filter: Seq<char>, b: BindingView) -> bool {
    let needle = lowercase(trim_spec(filter));
    ||| needle.len() == 0
    ||| contains_seq(lowercase(b.keys), needle)
    ||| contains_seq(lowercase(b.command), needle)
    ||| contains_seq(lowercase(mode_text(b.mode)), needle)
}

/// The positions, in order, of the first `n` bindings that the filter shows.
pub open spec fn matching_prefix(filter: Seq<char>, bs: Seq<BindingView>, n: int) -> Seq<usize>
    decreases n,
{
    if n <= 0 {
        Seq::<usize>::empty()
    } else {
        let p = matching_prefix(filter, bs, n - 1);
        if binding_matches(filter, bs[n - 1]) {
            p.push((n - 1) as usize)
        } else {
            p
        }
    }
}

/// A change that the user makes in the viewer.
#[derive(Clone, Debug)]
pub enum Message {
    /// The filter text was edited.
    FilterChanged(String),
}

/// The viewer: the bindings read, the filter typed, and an error to show in
/// place of the list.
pub struct App {
    pub filter: String,
    pub bindings: Vec<Binding>,
    pub error: Option<String>,
}

/// Whether `needle` occurs in `hay`.
fn contains_str(hay: &str, needle: &str) -> (r: bool)
    ensures
        r == contains_seq(hay@, needle@),
{
    contains_chars(&chars_of(hay), &chars_of(needle))
}

/// The filter test on texts that are already lowered: an empty needle shows
/// every binding, and otherwise the needle must occur in the keys, the command
/// or the mode.
pub fn matches_lowered(needle: &str, keys: &str, command: &str, mode: &str) -> (r: bool)
    ensures
        r == (needle@.len() == 0 || contains_seq(keys@, needle@) || contains_seq(
            command@,
            needle@,
        ) || contains_seq(mode@, needle@)),
{
    needle.is_empty() || contains_str(keys, needle) || contains_str(command, needle)
        || contains_str(mode, needle)
}

impl App {
    /// A viewer of the given bindings, with an empty filter.
    pub fn new(bindings: Vec<Binding>, error: Option<String>) -> (r: App)
        ensures
            r.filter@ == Seq::<char>::empty(),
            r.bindings == bindings,
            r.error == error,
    {
        App { filter: String::new(), bindings, error }
    }

    /// Applies a message: an edited filter replaces the filter.
    pub fn update(&mut self, message: Message)
        ensures
            match message {
                Message::FilterChanged(value) => final(self).filter == value,
            },
            final(self).bindings == old(self).bindings,
            final(self).error == old(self).error,
    {
        match message {
            Message::FilterChanged(value) => self.filter = value,
        }
    }

    /// Whether the filtered list shows `binding`.
    pub fn matches_filter(&self, binding: &Binding) -> (r: bool)
        ensures
            r == binding_matches(self.filter@, binding@),
            trim_spec(self.filter@).len() == 0 ==> r,
    {
        let needle = to_lowercase(trim(self.filter.as_str()));
        let keys = to_lowercase(binding.keys.as_str());
        let command = to_lowercase(binding.command.as_str());
        let mode = match &binding.mode {
            Some(m) => to_lowercase(m.as_str()),
            None => to_lowercase(""),
        };
        proof {
            if binding.mode is None {
                assert(""@.len() == 0) by {
                    reveal_strlit("");
                }
                assert(""@ =~= mode_text(binding@.mode));
            }
        }
        matches_lowered(needle.as_str(), keys.as_str(), command.as_str(), mode.as_str())
    }

    /// The positions of the bindings that the filtered list shows, in order.
    pub fn matching(&self) -> (r: Vec<usize>)
        ensures
            r@ == matching_prefix(
                self.filter@,
                self.bindings@.map_values(|b: Binding| b@),
                self.bindings@.len() as int,
            ),
            r@.len() <= self.bindings@.len(),
            forall|a: int, b: int| 0 <= a < b < r@.len() ==> r@[a] < r@[b],
            forall|a: int| 0 <= a < r@.len() ==> r@[a] < self.bindings@.len(),
            trim_spec(self.filter@).len() == 0 ==> r@ == Seq::new(
                self.bindings@.len() as nat,
                |i: int| i as usize,
            ),
    {
        let ghost bs = self.bindings@.map_values(|b: Binding| b@);
        let mut r: Vec<usize> = Vec::new();
        let mut i: usize = 0;
        while i < self.bindings.len()
            invariant
                i <= self.bindings.len(),
                bs == self.bindings@.map_values(|b: Binding| b@),
                r@ == matching_prefix(self.filter@, bs, i as int),
                r@.len() <= i,
                forall|a: int, b: int| 0 <= a < b < r@.len() ==> r@[a] < r@[b],
                forall|a: int| 0 <= a < r@.len() ==> r@[a] < i,
                trim_spec(self.filter@).len() == 0 ==> r@ == Seq::new(i as nat, |k: int| k as usize),
            decreases self.bindings.len() - i,
        {
            if self.matches_filter(&self.bindings[i]) {
                r.push(i);
            }
            i += 1;
            assert(trim_spec(self.filter@).len() == 0 ==> r@ =~= Seq::new(i as nat, |k: int| k as usize));
        }
        r
    }
}

} // verus!
