use vstd::prelude::*;
use crate::text::{chars_of, parse_i64, parsed_i64, string_of};

verus! {

/// A loosely typed option value, as a host hands it over.
pub enum OptionValue {
    Null,
    Bool(bool),
    Int(i64),
    Str(String),
    /// Any other kind of value (a list, a map, a fraction).
    Other,
}

impl OptionValue {
    /// The value read as a flag.
    pub open spec fn truthy(&self) -> bool {
        match self {
            OptionValue::Null => false,
            OptionValue::Bool(b) => *b,
            OptionValue::Int(n) => *n != 0,
            OptionValue::Str(s) => s@.len() > 0,
            OptionValue::Other => false,
        }
    }

    /// The value read as an integer, or none where it holds no integer.
    pub open spec fn int_value(&self) -> Option<i64> {
        match self {
            OptionValue::Int(n) => Some(*n),
            OptionValue::Str(s) => parsed_i64(s@),
            _ => None,
        }
    }
}

/// Reads a value as a flag: null is false, a number is true when nonzero, a
/// string when non-empty.
pub fn parse_bool(value: &OptionValue) -> (r: bool)
    ensures
        r == value.truthy(),
{
    match value {
        OptionValue::Null => false,
        OptionValue::Bool(b) => *b,
        OptionValue::Int(n) => *n != 0,
        OptionValue::Str(s) => !s.as_str().is_empty(),
        OptionValue::Other => false,
    }
}

/// Reads a value as an integer: a number is itself, a numeric string its
/// value; anything else gives `None`, which is not zero.
pub fn parse_int(value: &OptionValue) -> (r: Option<i64>)
    ensures
        r == value.int_value(),
{
    match value {
        OptionValue::Int(n) => Some(*n),
        OptionValue::Str(s) => parse_i64(s.as_str()),
        _ => None,
    }
}

/// The options of one conversion, one field per recognised key.
pub struct Settings {
    pub header_level_start: OptionValue,
    pub no_header_id: OptionValue,
    pub customized_header_id: OptionValue,
    pub gh_compatible_header_id: OptionValue,
    pub raw_header_id: OptionValue,
    pub prefix_header_id: OptionValue,
    pub raw_prefix_header_id: OptionValue,
    pub require_space_before_heading_text: OptionValue,
    pub literal_mid_word_asterisks: OptionValue,
    pub simple_line_breaks: OptionValue,
    pub strikethrough: OptionValue,
    pub tables: OptionValue,
    pub tasklists: OptionValue,
    pub emoji: OptionValue,
    pub gh_mentions: OptionValue,
    pub gh_mentions_link: OptionValue,
    pub open_links_in_new_window: OptionValue,
}

/// The mention link template used where none is given: `https://github.com/{u}`.
pub open spec fn default_mention_link() -> Seq<char> {
    seq!['h', 't', 't', 'p', 's', ':', '/', '/', 'g', 'i', 't', 'h', 'u', 'b', '.', 'c', 'o', 'm', '/', '{', 'u', '}']
}

/// The prefix of `section-` that `prefixHeaderId: true` asks for.
pub open spec fn section_prefix() -> Seq<char> {
    seq!['s', 'e', 'c', 't', 'i', 'o', 'n', '-']
}

fn default_mention_link_chars() -> (r: Vec<char>)
    ensures
        r@ == default_mention_link(),
{
    let r = vec!['h', 't', 't', 'p', 's', ':', '/', '/', 'g', 'i', 't', 'h', 'u', 'b', '.', 'c', 'o', 'm', '/', '{', 'u', '}'];
    assert(r@ =~= default_mention_link());
    r
}

fn section_prefix_chars() -> (r: Vec<char>)
    ensures
        r@ == section_prefix(),
{
    let r = vec!['s', 'e', 'c', 't', 'i', 'o', 'n', '-'];
    assert(r@ =~= section_prefix());
    r
}

impl Settings {
    /// Every flag false, headings numbered from 1, mentions linked to GitHub.
    pub open spec fn is_default(&self) -> bool {
        &&& self.header_level_start == OptionValue::Int(1)
        &&& self.no_header_id == OptionValue::Bool(false)
        &&& self.customized_header_id == OptionValue::Bool(false)
        &&& self.gh_compatible_header_id == OptionValue::Bool(false)
        &&& self.raw_header_id == OptionValue::Bool(false)
        &&& self.prefix_header_id == OptionValue::Bool(false)
        &&& self.raw_prefix_header_id == OptionValue::Bool(false)
        &&& self.require_space_before_heading_text == OptionValue::Bool(false)
        &&& self.literal_mid_word_asterisks == OptionValue::Bool(false)
        &&& self.simple_line_breaks == OptionValue::Bool(false)
        &&& self.strikethrough == OptionValue::Bool(false)
        &&& self.tables == OptionValue::Bool(false)
        &&& self.tasklists == OptionValue::Bool(false)
        &&& self.emoji == OptionValue::Bool(false)
        &&& self.gh_mentions == OptionValue::Bool(false)
        &&& self.gh_mentions_link is Str
        &&& self.gh_mentions_link->Str_0@ == default_mention_link()
        &&& self.open_links_in_new_window == OptionValue::Bool(false)
    }

    /// Every key unset.
    pub open spec fn is_unset(&self) -> bool {
        &&& self.header_level_start is Null
        &&& self.no_header_id is Null
        &&& self.customized_header_id is Null
        &&& self.gh_compatible_header_id is Null
        &&& self.raw_header_id is Null
        &&& self.prefix_header_id is Null
        &&& self.raw_prefix_header_id is Null
        &&& self.require_space_before_heading_text is Null
        &&& self.literal_mid_word_asterisks is Null
        &&& self.simple_line_breaks is Null
        &&& self.strikethrough is Null
        &&& self.tables is Null
        &&& self.tasklists is Null
        &&& self.emoji is Null
        &&& self.gh_mentions is Null
        &&& self.gh_mentions_link is Null
        &&& self.open_links_in_new_window is Null
    }

    /// The built-in defaults.
    pub fn defaults() -> (r: Settings)
        ensures
            r.is_default(),
    {
        let link = string_of(&default_mention_link_chars());
        Settings {
            header_level_start: OptionValue::Int(1),
            no_header_id: OptionValue::Bool(false),
            customized_header_id: OptionValue::Bool(false),
            gh_compatible_header_id: OptionValue::Bool(false),
            raw_header_id: OptionValue::Bool(false),
            prefix_header_id: OptionValue::Bool(false),
            raw_prefix_header_id: OptionValue::Bool(false),
            require_space_before_heading_text: OptionValue::Bool(false),
            literal_mid_word_asterisks: OptionValue::Bool(false),
            simple_line_breaks: OptionValue::Bool(false),
            strikethrough: OptionValue::Bool(false),
            tables: OptionValue::Bool(false),
            tasklists: OptionValue::Bool(false),
            emoji: OptionValue::Bool(false),
            gh_mentions: OptionValue::Bool(false),
            gh_mentions_link: OptionValue::Str(link),
            open_links_in_new_window: OptionValue::Bool(false),
        }
    }

    /// No key set: every flag reads false and no level offset applies.
    pub fn unset() -> (r: Settings)
        ensures
            r.is_unset(),
    {
        Settings {
            header_level_start: OptionValue::Null,
            no_header_id: OptionValue::Null,
            customized_header_id: OptionValue::Null,
            gh_compatible_header_id: OptionValue::Null,
            raw_header_id: OptionValue::Null,
            prefix_header_id: OptionValue::Null,
            raw_prefix_header_id: OptionValue::Null,
            require_space_before_heading_text: OptionValue::Null,
            literal_mid_word_asterisks: OptionValue::Null,
            simple_line_breaks: OptionValue::Null,
            strikethrough: OptionValue::Null,
            tables: OptionValue::Null,
            tasklists: OptionValue::Null,
            emoji: OptionValue::Null,
            gh_mentions: OptionValue::Null,
            gh_mentions_link: OptionValue::Null,
            open_links_in_new_window: OptionValue::Null,
        }
    }

    /// The prefix for heading ids: `section-` for `true`, the string itself
    /// for a non-empty string, else nothing.
    pub open spec fn prefix_spec(&self) -> Seq<char> {
        match self.prefix_header_id {
            OptionValue::Bool(true) => section_prefix(),
            OptionValue::Str(s) => s@,
            _ => Seq::empty(),
        }
    }

    pub fn prefix(&self) -> (r: Vec<char>)
        ensures
            r@ == self.prefix_spec(),
    {
        match &self.prefix_header_id {
            OptionValue::Bool(b) => if *b {
                section_prefix_chars()
            } else {
                Vec::new()
            },
            OptionValue::Str(s) => chars_of(s.as_str()),
            _ => Vec::new(),
        }
    }

    /// The mention link template: the string given, else the default one.
    pub open spec fn mention_link_spec(&self) -> Seq<char> {
        match self.gh_mentions_link {
            OptionValue::Str(s) => s@,
            _ => default_mention_link(),
        }
    }

    pub fn mention_link(&self) -> (r: Vec<char>)
        ensures
            r@ == self.mention_link_spec(),
    {
        match &self.gh_mentions_link {
            OptionValue::Str(s) => chars_of(s.as_str()),
            _ => default_mention_link_chars(),
        }
    }
}

} // verus!
