//! What a test can note down while it runs, for whoever looks into a
//! failure afterwards.

use vstd::prelude::*;
use vstd::string::StringExecFns;
use crate::clock::now_millis;
use crate::error::{Error, ErrorKind, ErrorView};
use crate::json::clone_values;
use crate::ordered::{set_get, set_index_of, set_insert_full, set_items, set_new};
use vstd::string::StringSliceAdditionalSpecFns;
use vstd::utf8::{
    decode_utf8, encode_utf8, encode_utf8_decode_utf8, encode_utf8_valid_utf8, is_char_boundary,
    valid_utf8,
};
use crate::text::{clone_strings, join_strings, joined, texts};

verus! {

/// How much is noted down.
#[derive(Debug, Clone, Copy, PartialEq, Eq, Structural)]
pub enum DebugLevel {
    /// Nothing is noted down.
    Off,
    Info,
    Debug,
    Trace,
}

impl Default for DebugLevel {
    fn default() -> (r: Self)
        ensures
            r == DebugLevel::Info,
    {
        DebugLevel::Info
    }
}

impl DebugLevel {
    /// The place of the level among the levels, the quietest first.
    pub open spec fn spec_rank(&self) -> int {
        match self {
            DebugLevel::Off => 0,
            DebugLevel::Info => 1,
            DebugLevel::Debug => 2,
            DebugLevel::Trace => 3,
        }
    }

    /// The place of the level among the levels, the quietest first.
    pub fn rank(&self) -> (r: u8)
        ensures
            r == self.spec_rank(),
    {
        match self {
            DebugLevel::Off => 0,
            DebugLevel::Info => 1,
            DebugLevel::Debug => 2,
            DebugLevel::Trace => 3,
        }
    }

    /// Whether what is worth noting at the level `wanted` is noted at this
    /// level.
    pub fn includes(&self, wanted: DebugLevel) -> (r: bool)
        ensures
            r == (self.spec_rank() >= wanted.spec_rank()),
    {
        self.rank() >= wanted.rank()
    }
}

/// What is noted down, and how.
#[derive(Debug, Clone, Copy)]
pub struct DebugConfig {
    pub level: DebugLevel,
    pub capture_output: bool,
    pub show_timing: bool,
    pub show_stack_traces: bool,
}

impl Default for DebugConfig {
    fn default() -> (r: Self)
        ensures
            r.level == DebugLevel::Info,
            r.capture_output,
            r.show_timing,
            r.show_stack_traces,
    {
        DebugConfig {
            level: DebugLevel::Info,
            capture_output: true,
            show_timing: true,
            show_stack_traces: true,
        }
    }
}

/// What was noted down at one moment.
pub struct DebugSnapshot {
    pub breadcrumbs: Vec<String>,
    /// The keys of the data, in the order in which they were added.
    pub keys: Vec<String>,
    /// The data; the value at index `i` belongs to the key at index `i`.
    pub values: Vec<serde_json::Value>,
    /// The moment, in milliseconds since the Unix epoch.
    pub timestamp: i64,
}

/// The message of the error for data that was not noted down.
pub open spec fn missing_data(key: Seq<char>) -> Seq<char> {
    "Debug data '"@ + key + "' not found"@
}

/// The notes of one test: the path it has taken, and data by key.
pub struct DebugContext {
    /// The stations of the test's path, in the order in which it passed
    /// them.
    pub breadcrumbs: Vec<String>,
    /// The keys of the data, in the order in which they were added.
    pub keys: indexmap::IndexSet<String>,
    /// The data; the value at index `i` belongs to the key at index `i`.
    pub values: Vec<serde_json::Value>,
    pub config: DebugConfig,
}

impl DebugContext {
    /// Every key has its value, and no key is there twice.
    pub open spec fn wf(&self) -> bool {
        set_items(self.keys).len() == self.values@.len() && set_items(self.keys).no_duplicates()
    }

    /// Notes without stations and without data.
    pub fn new(config: DebugConfig) -> (r: Self)
        ensures
            r.wf(),
            r.breadcrumbs@.len() == 0,
            set_items(r.keys).len() == 0,
            r.config == config,
    {
        DebugContext { breadcrumbs: Vec::new(), keys: set_new(), values: Vec::new(), config }
    }

    /// Notes one more station of the path.
    pub fn add_breadcrumb(&mut self, crumb: &str)
        ensures
            texts(final(self).breadcrumbs@) == texts(old(self).breadcrumbs@).push(crumb@),
            final(self).keys == old(self).keys,
            final(self).values == old(self).values,
            final(self).config == old(self).config,
    {
        self.breadcrumbs.push(crumb.to_owned());
        assert(texts(self.breadcrumbs@) =~= texts(old(self).breadcrumbs@).push(crumb@));
    }

    /// Notes `value` under `key`: in the place of the value that was under
    /// the key, or after all others.
    pub fn add_data(&mut self, key: &str, value: serde_json::Value)
        requires
            old(self).wf(),
        ensures
            final(self).wf(),
            final(self).breadcrumbs == old(self).breadcrumbs,
            set_items(final(self).keys).contains(key@),
            final(self).values@[set_items(final(self).keys).index_of(key@)] == value,
            set_items(old(self).keys).contains(key@) ==> set_items(final(self).keys) == set_items(
                old(self).keys,
            ) && final(self).values@ == old(self).values@.update(
                set_items(old(self).keys).index_of(key@),
                value,
            ),
            !set_items(old(self).keys).contains(key@) ==> set_items(final(self).keys) == set_items(
                old(self).keys,
            ).push(key@) && final(self).values@ == old(self).values@.push(value),
    {
        let (index, fresh) = set_insert_full(&mut self.keys, key.to_owned());
        if fresh {
            self.values.push(value);
        } else {
            proof {
                let before = set_items(old(self).keys);
                assert(before[index as int] == key@);
                let chosen = before.index_of(key@);
                assert(chosen == index);
            }
            self.values.set(index, value);
        }
        proof {
            let names = set_items(self.keys);
            assert(names[index as int] == key@);
            let chosen = names.index_of(key@);
            assert(chosen == index);
        }
    }

    /// The value noted under `key`; a generic error where there is none.
    pub fn get_data(&self, key: &str) -> (r: Result<&serde_json::Value, Error>)
        requires
            self.wf(),
        ensures
            match r {
                Ok(v) => set_items(self.keys).contains(key@) && *v == self.values@[set_items(
                    self.keys,
                ).index_of(key@)],
                Err(e) => !set_items(self.keys).contains(key@) && e@ == (ErrorView {
                    kind: ErrorKind::Generic,
                    stage: Seq::empty(),
                    message: missing_data(key@),
                }),
            },
    {
        match set_index_of(&self.keys, key) {
            Some(i) => {
                proof {
                    let chosen = set_items(self.keys).index_of(key@);
                    assert(chosen == i);
                }
                Ok(&self.values[i])
            },
            None => {
                let mut message = String::from_str("Debug data '");
                message.append(key);
                message.append("' not found");
                Err(Error::generic(message.as_str()))
            },
        }
    }

    /// The path that the test has taken: its stations with an arrow
    /// between each two.
    pub fn current_path(&self) -> (r: String)
        ensures
            r@ == joined(texts(self.breadcrumbs@), " -> "@),
    {
        join_strings(&self.breadcrumbs, " -> ")
    }

    /// What is noted down now.
    pub fn snapshot(&self) -> (r: DebugSnapshot)
        requires
            self.wf(),
        ensures
            texts(r.breadcrumbs@) == texts(self.breadcrumbs@),
            texts(r.keys@) == set_items(self.keys),
            r.values@ == self.values@,
    {
        let mut keys: Vec<String> = Vec::new();
        let mut i: usize = 0;
        assert(texts(keys@) =~= set_items(self.keys).take(0));
        while i < self.values.len()
            invariant
                i <= self.values.len(),
                self.wf(),
                texts(keys@) == set_items(self.keys).take(i as int),
            decreases self.values.len() - i,
        {
            let ghost had = texts(keys@);
            match set_get(&self.keys, i) {
                Some(key) => {
                    keys.push(key);
                    assert(texts(keys@) =~= had.push(set_items(self.keys)[i as int]));
                },
                None => {},
            }
            i += 1;
            assert(texts(keys@) =~= set_items(self.keys).take(i as int));
        }
        assert(set_items(self.keys).take(i as int) =~= set_items(self.keys));
        DebugSnapshot {
            breadcrumbs: clone_strings(&self.breadcrumbs),
            keys,
            values: clone_values(&self.values),
            timestamp: now_millis(),
        }
    }
}

/// `Debug` formatting with line breaks and indentation, through `format!`:
/// the text that the value's `Debug` writes. Nothing is claimed of it.
#[verifier::external_body]
pub(crate) fn pretty_debug_text<T: std::fmt::Debug>(value: &T) -> (r: String) {
    format!("{:#?}", value)
}

/// Where a text of the bytes `bytes` is cut that should be cut at the
/// byte `n`: at `n` where a character begins there, else where the
/// character begins that the byte belongs to.
pub open spec fn cut_point(bytes: Seq<u8>, n: int) -> int
    decreases n,
{
    if n <= 0 {
        0
    } else if is_char_boundary(bytes, n) {
        n
    } else {
        cut_point(bytes, n - 1)
    }
}

/// `s` cut to at most `max_len` bytes of its UTF-8 form: `s` itself where
/// it is no longer; else its start, cut three bytes short of `max_len` and
/// never inside a character, and three dots.
pub open spec fn truncated(s: Seq<char>, max_len: nat) -> Seq<char> {
    let bytes = encode_utf8(s);
    if bytes.len() <= max_len {
        s
    } else if max_len >= 3 {
        decode_utf8(bytes.subrange(0, cut_point(bytes, max_len - 3))) + "..."@
    } else {
        "..."@
    }
}

/// Helpers for showing values.
#[derive(Debug, Clone, Copy)]
pub struct DebugFormatter;

impl DebugFormatter {
    /// The value as its `Debug` writes it, on several lines.
    pub fn debug_value<T: std::fmt::Debug>(value: &T) -> (r: String) {
        pretty_debug_text(value)
    }

    /// `s` cut to at most `max_len` bytes, with three dots in place of
    /// what was cut off; see [`truncated`].
    pub fn truncate_string(s: &str, max_len: usize) -> (r: String)
        ensures
            r@ == truncated(s@, max_len as nat),
    {
        broadcast use {encode_utf8_valid_utf8, encode_utf8_decode_utf8};

        let ghost bytes = s.spec_bytes();
        let length = s.as_bytes().len();
        assert(length == bytes.len());
        if length <= max_len {
            s.to_owned()
        } else {
            let wanted: usize = if max_len >= 3 {
                max_len - 3
            } else {
                0
            };
            let mut cut: usize = wanted;
            while !s.is_char_boundary(cut)
                invariant
                    bytes == encode_utf8(s@),
                    valid_utf8(bytes),
                    cut <= wanted,
                    wanted < bytes.len(),
                    cut_point(bytes, cut as int) == cut_point(bytes, wanted as int),
                decreases cut,
            {
                assert(cut > 0);
                cut -= 1;
            }
            assert(cut_point(bytes, cut as int) == cut);
            let (head, _) = s.split_at(cut);
            assert(head.spec_bytes() == bytes.subrange(0, cut as int));
            assert(decode_utf8(encode_utf8(head@)) == head@);
            let mut out = head.to_owned();
            out.append("...");
            proof {
                if max_len < 3 {
                    assert(cut == 0);
                    assert(encode_utf8(head@).len() == 0);
                    assert(head@.len() == 0) by {
                        if head@.len() > 0 {
                            vstd::utf8::encode_utf8_first_scalar(head@);
                        }
                    }
                    assert(head@ + "..."@ =~= "..."@);
                }
            }
            out
        }
    }
}

} // verus!
