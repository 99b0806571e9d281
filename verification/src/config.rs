//! The settings record and its text form.
//!
//! The record is kept as two lines of text, `server_url=` and `api_key=`, each
//! followed by its value and a line feed. Inside a value a backslash is
//! written as two backslashes and a line feed as a backslash and `n`, so that
//! every value, whatever characters it holds, stays on its line and is read
//! back unchanged.

use vstd::prelude::*;
use vstd::string::*;
use vstd::std_specs::cmp::PartialEqSpecImpl;

verus! {

/// The settings of the application: where the server is, and the key that
/// opens it.
#[derive(Clone, Debug)]
pub struct Config {
    pub server_url: String,
    pub api_key: String,
}

/// A `Config` as a value of specifications.
pub struct ConfigView {
    pub server_url: Seq<char>,
    pub api_key: Seq<char>,
}

impl View for Config {
    type V = ConfigView;

    open spec fn view(&self) -> ConfigView {
        ConfigView { server_url: self.server_url@, api_key: self.api_key@ }
    }
}

/// The record of a first run: no server and no key.
pub open spec fn default_config() -> ConfigView {
    ConfigView { server_url: Seq::empty(), api_key: Seq::empty() }
}

impl Default for Config {
    fn default() -> (r: Config)
        ensures
            r@ == default_config(),
    {
        Config { server_url: String::new(), api_key: String::new() }
    }
}

impl PartialEq for Config {
    fn eq(&self, other: &Config) -> (r: bool) {
        self.server_url == other.server_url && self.api_key == other.api_key
    }
}

impl Eq for Config {

}

impl PartialEqSpecImpl for Config {
    open spec fn obeys_eq_spec() -> bool {
        true
    }

    open spec fn eq_spec(&self, other: &Config) -> bool {
        self.server_url@ == other.server_url@ && self.api_key@ == other.api_key@
    }
}

impl Config {
    /// The record with these two values.
    pub fn new(server_url: String, api_key: String) -> (r: Config)
        ensures
            r@ == (ConfigView { server_url: server_url@, api_key: api_key@ }),
    {
        Config { server_url, api_key }
    }
}

/// How one character of a value is written.
pub open spec fn escape_char(c: char) -> Seq<char> {
    if c == '\\' {
        seq!['\\', '\\']
    } else if c == '\n' {
        seq!['\\', 'n']
    } else {
        seq![c]
    }
}

/// How a value is written: character by character.
pub open spec fn escape(value: Seq<char>) -> Seq<char>
    decreases value.len(),
{
    if value.len() == 0 {
        Seq::empty()
    } else {
        escape_char(value[0]) + escape(value.skip(1))
    }
}

/// `head` before what `rest` holds, if it holds anything.
pub open spec fn prepend(head: Seq<char>, rest: Option<Seq<char>>) -> Option<Seq<char>> {
    match rest {
        Some(tail) => Some(head + tail),
        None => None,
    }
}

/// The value that `written` stands for, or `None` where a backslash in it is
/// followed by neither a backslash nor `n`.
pub open spec fn unescape(written: Seq<char>) -> Option<Seq<char>>
    decreases written.len(),
{
    if written.len() == 0 {
        Some(Seq::empty())
    } else if written[0] != '\\' {
        prepend(seq![written[0]], unescape(written.skip(1)))
    } else if written.len() >= 2 && written[1] == '\\' {
        prepend(seq!['\\'], unescape(written.skip(2)))
    } else if written.len() >= 2 && written[1] == 'n' {
        prepend(seq!['\n'], unescape(written.skip(2)))
    } else {
        None
    }
}

/// The record as text: its two lines.
pub open spec fn encode(config: ConfigView) -> Seq<char> {
    "server_url="@ + escape(config.server_url) + seq!['\n'] + "api_key="@ + escape(config.api_key)
        + seq!['\n']
}

/// Appends `value`, as it is written, to `out`.
fn push_escaped(out: &mut String, value: &str)
    ensures
        final(out)@ == old(out)@ + escape(value@),
{
    let len = value.unicode_len();
    let mut i: usize = 0;
    proof {
        assert(value@.skip(0) =~= value@);
    }
    while i < len
        invariant
            len == value@.len(),
            i <= len,
            out@ + escape(value@.skip(i as int)) == old(out)@ + escape(value@),
        decreases len - i,
    {
        let c = value.get_char(i);
        let ghost before = out@;
        let ghost rest = value@.skip(i as int);
        proof {
            assert(rest[0] == c);
            assert(rest.skip(1) =~= value@.skip(i + 1));
            reveal_strlit("\\\\");
            reveal_strlit("\\n");
        }
        if c == '\\' {
            out.append("\\\\");
            assert(out@ =~= before + escape_char(c));
        } else if c == '\n' {
            out.append("\\n");
            assert(out@ =~= before + escape_char(c));
        } else {
            out.append(value.substring_char(i, i + 1));
            assert(out@ =~= before + escape_char(c));
        }
        proof {
            assert(before + escape(rest) =~= (before + escape_char(c)) + escape(rest.skip(1)));
        }
        i = i + 1;
    }
    proof {
        assert(escape(value@.skip(len as int)) =~= Seq::<char>::empty());
        assert(out@ + Seq::<char>::empty() =~= out@);
    }
}

impl Config {
    /// Writes the record as text.
    pub fn to_text(&self) -> (r: String)
        ensures
            r@ == encode(self@),
            decode(r@) == Ok::<ConfigView, ConfigError>(self@),
    {
        proof {
            lemma_decode_encode(self@);
        }
        let mut out = String::from_str("server_url=");
        push_escaped(&mut out, self.server_url.as_str());
        out.append("\n");
        out.append("api_key=");
        push_escaped(&mut out, self.api_key.as_str());
        out.append("\n");
        proof {
            reveal_strlit("\n");
            assert("\n"@ =~= seq!['\n']);
        }
        out
    }
}

/// Why a text is not a record.
#[derive(Clone, Copy, Debug, PartialEq, Eq, Structural)]
pub enum ConfigError {
    /// The text does not start with a complete `server_url=` line.
    MissingServerUrl,
    /// No complete `api_key=` line follows the first line.
    MissingApiKey,
    /// A value holds a backslash that is followed by neither a backslash nor
    /// `n`.
    InvalidEscape,
    /// Something follows the second line.
    TrailingText,
}

/// The length of the first line of `text`: the place of its first line feed,
/// or its whole length where it has none.
pub open spec fn line_length(text: Seq<char>) -> int
    decreases text.len(),
{
    if text.len() == 0 || text[0] == '\n' {
        0
    } else {
        1 + line_length(text.skip(1))
    }
}

/// What reading one line off a text gives.
pub enum FieldRead {
    /// The first line is not complete, or does not start with the key.
    Missing,
    /// The line is there, and what follows the key is no written value.
    InvalidEscape,
    /// The line is there, with this value; `rest` is what follows the line.
    Value { value: Seq<char>, rest: Seq<char> },
}

/// Reads the line that starts with `key` off the front of `text`.
pub open spec fn read_field(text: Seq<char>, key: Seq<char>) -> FieldRead {
    let end = line_length(text);
    if end == text.len() || !key.is_prefix_of(text.subrange(0, end)) {
        FieldRead::Missing
    } else {
        match unescape(text.subrange(key.len() as int, end)) {
            None => FieldRead::InvalidEscape,
            Some(value) => FieldRead::Value { value, rest: text.subrange(end + 1, text.len() as int) },
        }
    }
}

/// The record that `text` holds, or why it holds none.
pub open spec fn decode(text: Seq<char>) -> Result<ConfigView, ConfigError> {
    match read_field(text, "server_url="@) {
        FieldRead::Missing => Err(ConfigError::MissingServerUrl),
        FieldRead::InvalidEscape => Err(ConfigError::InvalidEscape),
        FieldRead::Value { value: server_url, rest } => match read_field(rest, "api_key="@) {
            FieldRead::Missing => Err(ConfigError::MissingApiKey),
            FieldRead::InvalidEscape => Err(ConfigError::InvalidEscape),
            FieldRead::Value { value: api_key, rest: tail } => if tail.len() == 0 {
                Ok(ConfigView { server_url, api_key })
            } else {
                Err(ConfigError::TrailingText)
            },
        },
    }
}

/// The first place `end` without a line feed before it, and with one at it
/// unless it is the end of the text, is `line_length`.
pub proof fn lemma_line_length_is(text: Seq<char>, end: int)
    requires
        0 <= end <= text.len(),
        forall|i: int| 0 <= i < end ==> text[i] != '\n',
        end < text.len() ==> text[end] == '\n',
    ensures
        line_length(text) == end,
    decreases text.len(),
{
    if end == 0 {
    } else {
        let tail = text.skip(1);
        assert(text[0] != '\n');
        assert forall|i: int| 0 <= i < end - 1 implies tail[i] != '\n' by {
            assert(tail[i] == text[i + 1]);
        }
        lemma_line_length_is(tail, end - 1);
    }
}

/// Finds the end of the first line of `text`.
fn first_line_length(text: &str, len: usize) -> (end: usize)
    requires
        len == text@.len(),
    ensures
        end == line_length(text@),
        end <= len,
{
    let mut end: usize = 0;
    while end < len && text.get_char(end) != '\n'
        invariant
            len == text@.len(),
            end <= len,
            forall|i: int| 0 <= i < end ==> text@[i] != '\n',
        decreases len - end,
    {
        end = end + 1;
    }
    proof {
        lemma_line_length_is(text@, end as int);
    }
    end
}

/// Whether `text` starts with `key`.
fn starts_with(text: &str, len: usize, key: &str) -> (r: bool)
    requires
        len == text@.len(),
    ensures
        r == key@.is_prefix_of(text@),
{
    let key_len = key.unicode_len();
    if key_len > len {
        return false;
    }
    let mut i: usize = 0;
    while i < key_len
        invariant
            len == text@.len(),
            key_len == key@.len(),
            key_len <= len,
            i <= key_len,
            forall|j: int| 0 <= j < i ==> text@[j] == key@[j],
        decreases key_len - i,
    {
        if text.get_char(i) != key.get_char(i) {
            proof {
                assert(text@.subrange(0, key_len as int)[i as int] == text@[i as int]);
            }
            return false;
        }
        i = i + 1;
    }
    proof {
        assert(key@ =~= text@.subrange(0, key_len as int));
    }
    true
}

/// Reads a written value back.
fn read_escaped(written: &str) -> (r: Option<String>)
    ensures
        match r {
            Some(value) => unescape(written@) == Some(value@),
            None => unescape(written@) is None,
        },
{
    let len = written.unicode_len();
    let mut out = String::new();
    let mut i: usize = 0;
    proof {
        assert(written@.skip(0) =~= written@);
        assert(unescape(written@) == prepend(out@, unescape(written@))) by {
            if let Some(value) = unescape(written@) {
                assert(out@ + value =~= value);
            }
        }
    }
    while i < len
        invariant
            len == written@.len(),
            i <= len,
            unescape(written@) == prepend(out@, unescape(written@.skip(i as int))),
        decreases len - i,
    {
        let c = written.get_char(i);
        let ghost before = out@;
        let ghost rest = written@.skip(i as int);
        proof {
            assert(rest[0] == c);
            assert(rest.skip(1) =~= written@.skip(i + 1));
            reveal_strlit("\\");
            reveal_strlit("\n");
        }
        if c != '\\' {
            out.append(written.substring_char(i, i + 1));
            proof {
                assert(out@ =~= before + seq![c]);
                lemma_prepend_twice(before, seq![c], unescape(rest.skip(1)));
            }
            i = i + 1;
        } else if i + 1 < len {
            let d = written.get_char(i + 1);
            proof {
                assert(rest[1] == d);
                assert(rest.skip(2) =~= written@.skip(i + 2));
            }
            if d == '\\' {
                out.append("\\");
                proof {
                    assert(out@ =~= before + seq!['\\']);
                    lemma_prepend_twice(before, seq!['\\'], unescape(rest.skip(2)));
                }
            } else if d == 'n' {
                out.append("\n");
                proof {
                    assert(out@ =~= before + seq!['\n']);
                    lemma_prepend_twice(before, seq!['\n'], unescape(rest.skip(2)));
                }
            } else {
                return None;
            }
            i = i + 2;
        } else {
            return None;
        }
    }
    proof {
        assert(out@ + Seq::<char>::empty() =~= out@);
    }
    Some(out)
}

/// Putting `first` and then `second` before a value is putting both before
/// it.
proof fn lemma_prepend_twice(first: Seq<char>, second: Seq<char>, rest: Option<Seq<char>>)
    ensures
        prepend(first, prepend(second, rest)) == prepend(first + second, rest),
{
    if let Some(tail) = rest {
        assert(first + (second + tail) =~= (first + second) + tail);
    }
}

/// One line read off a text, as the reader holds it.
enum Field<'a> {
    Missing,
    InvalidEscape,
    Value(String, &'a str),
}

impl<'a> View for Field<'a> {
    type V = FieldRead;

    closed spec fn view(&self) -> FieldRead {
        match self {
            Field::Missing => FieldRead::Missing,
            Field::InvalidEscape => FieldRead::InvalidEscape,
            Field::Value(value, rest) => FieldRead::Value { value: value@, rest: rest@ },
        }
    }
}

/// Reads the line that starts with `key` off the front of `text`.
fn take_field<'a>(text: &'a str, key: &str) -> (r: Field<'a>)
    ensures
        r@ == read_field(text@, key@),
{
    let len = text.unicode_len();
    let end = first_line_length(text, len);
    if end == len {
        return Field::Missing;
    }
    let line = text.substring_char(0, end);
    if !starts_with(line, end, key) {
        return Field::Missing;
    }
    let key_len = key.unicode_len();
    match read_escaped(text.substring_char(key_len, end)) {
        None => Field::InvalidEscape,
        Some(value) => Field::Value(value, text.substring_char(end + 1, len)),
    }
}

/// The result of reading a record, as a value of specifications.
pub open spec fn decoded_view(result: Result<Config, ConfigError>) -> Result<
    ConfigView,
    ConfigError,
> {
    match result {
        Ok(config) => Ok(config@),
        Err(error) => Err(error),
    }
}

impl Config {
    /// Reads a record from its text.
    pub fn from_text(text: &str) -> (r: Result<Config, ConfigError>)
        ensures
            decoded_view(r) == decode(text@),
    {
        match take_field(text, "server_url=") {
            Field::Missing => Err(ConfigError::MissingServerUrl),
            Field::InvalidEscape => Err(ConfigError::InvalidEscape),
            Field::Value(server_url, rest) => match take_field(rest, "api_key=") {
                Field::Missing => Err(ConfigError::MissingApiKey),
                Field::InvalidEscape => Err(ConfigError::InvalidEscape),
                Field::Value(api_key, tail) => if tail.unicode_len() == 0 {
                    Ok(Config { server_url, api_key })
                } else {
                    Err(ConfigError::TrailingText)
                },
            },
        }
    }
}

/// A written value holds no line feed.
pub proof fn lemma_escape_has_no_line_feed(value: Seq<char>)
    ensures
        forall|i: int| 0 <= i < escape(value).len() ==> escape(value)[i] != '\n',
    decreases value.len(),
{
    if value.len() > 0 {
        lemma_escape_has_no_line_feed(value.skip(1));
        let head = escape_char(value[0]);
        let tail = escape(value.skip(1));
        assert forall|i: int| 0 <= i < escape(value).len() implies escape(value)[i] != '\n' by {
            if i >= head.len() {
                assert(escape(value)[i] == tail[i - head.len()]);
            }
        }
    }
}

/// A written value reads back as the value it was written from.
pub proof fn lemma_unescape_escape(value: Seq<char>)
    ensures
        unescape(escape(value)) == Some(value),
    decreases value.len(),
{
    if value.len() > 0 {
        let c = value[0];
        let rest = value.skip(1);
        let written = escape(value);
        lemma_unescape_escape(rest);
        if c == '\\' || c == '\n' {
            assert(written.skip(2) =~= escape(rest));
        } else {
            assert(written.skip(1) =~= escape(rest));
        }
        assert(seq![c] + rest =~= value);
    }
}

/// A line written with `key` and `value`, whatever follows it, reads back as
/// `value`, with what follows as the rest.
pub proof fn lemma_read_field_written(key: Seq<char>, value: Seq<char>, rest: Seq<char>)
    requires
        forall|i: int| 0 <= i < key.len() ==> key[i] != '\n',
    ensures
        read_field(key + escape(value) + seq!['\n'] + rest, key) == (FieldRead::Value {
            value,
            rest,
        }),
{
    let written = escape(value);
    let text = key + written + seq!['\n'] + rest;
    let end: int = (key.len() + written.len()) as int;
    lemma_escape_has_no_line_feed(value);
    lemma_unescape_escape(value);
    assert forall|i: int| 0 <= i < end implies text[i] != '\n' by {
        if i >= key.len() {
            assert(text[i] == written[i - key.len()]);
        } else {
            assert(text[i] == key[i]);
        }
    }
    assert(text[end] == '\n');
    lemma_line_length_is(text, end);
    assert(key =~= text.subrange(0, end).subrange(0, key.len() as int));
    assert(text.subrange(key.len() as int, end) =~= written);
    assert(text.subrange(end + 1, text.len() as int) =~= rest);
}

/// The text of a record reads back as that record: whatever the two values
/// hold, the empty value and every character included.
pub proof fn lemma_decode_encode(config: ConfigView)
    ensures
        decode(encode(config)) == Ok::<ConfigView, ConfigError>(config),
{
    let url_key = "server_url="@;
    let key_key = "api_key="@;
    reveal_strlit("server_url=");
    reveal_strlit("api_key=");
    let second = key_key + escape(config.api_key) + seq!['\n'] + Seq::<char>::empty();
    assert(encode(config) =~= url_key + escape(config.server_url) + seq!['\n'] + second);
    lemma_read_field_written(url_key, config.server_url, second);
    lemma_read_field_written(key_key, config.api_key, Seq::<char>::empty());
}

/// What an error says to the user.
pub open spec fn error_text(error: ConfigError) -> Seq<char> {
    match error {
        ConfigError::MissingServerUrl => "settings: the server_url line is missing"@,
        ConfigError::MissingApiKey => "settings: the api_key line is missing"@,
        ConfigError::InvalidEscape => "settings: a value holds an invalid escape"@,
        ConfigError::TrailingText => "settings: unexpected text after the api_key line"@,
    }
}

impl ConfigError {
    /// What the error says to the user.
    pub fn message(&self) -> (r: String)
        ensures
            r@ == error_text(*self),
    {
        match self {
            ConfigError::MissingServerUrl => String::from_str(
                "settings: the server_url line is missing",
            ),
            ConfigError::MissingApiKey => String::from_str("settings: the api_key line is missing"),
            ConfigError::InvalidEscape => String::from_str(
                "settings: a value holds an invalid escape",
            ),
            ConfigError::TrailingText => String::from_str(
                "settings: unexpected text after the api_key line",
            ),
        }
    }
}

/// What was found where the record is kept.
#[derive(Clone, Debug)]
pub enum Stored {
    /// Nothing: the record was never saved.
    Absent,
    /// This text.
    Text(String),
    /// Something that could not be read; the text says why.
    Unreadable(String),
}

/// A `Stored` as a value of specifications.
pub enum StoredView {
    Absent,
    Text(Seq<char>),
    Unreadable(Seq<char>),
}

impl View for Stored {
    type V = StoredView;

    open spec fn view(&self) -> StoredView {
        match self {
            Stored::Absent => StoredView::Absent,
            Stored::Text(text) => StoredView::Text(text@),
            Stored::Unreadable(cause) => StoredView::Unreadable(cause@),
        }
    }
}

/// What loading gives for what was found: the default record where nothing
/// was saved, the record that a text holds, and an error that says why
/// where the text holds none or could not be read.
pub open spec fn load_result(stored: StoredView) -> Result<ConfigView, Seq<char>> {
    match stored {
        StoredView::Absent => Ok(default_config()),
        StoredView::Text(text) => match decode(text) {
            Ok(config) => Ok(config),
            Err(error) => Err(error_text(error)),
        },
        StoredView::Unreadable(cause) => Err(cause),
    }
}

/// The result of loading, as a value of specifications.
pub open spec fn loaded_view(result: Result<Config, String>) -> Result<ConfigView, Seq<char>> {
    match result {
        Ok(config) => Ok(config@),
        Err(cause) => Err(cause@),
    }
}

impl Config {
    /// Loads the record from what was found where it is kept. Where nothing
    /// was found this is the default record, never an error.
    pub fn load(stored: &Stored) -> (r: Result<Config, String>)
        ensures
            loaded_view(r) == load_result(stored@),
            stored@ is Absent ==> loaded_view(r) == Ok::<ConfigView, Seq<char>>(default_config()),
    {
        match stored {
            Stored::Absent => Ok(Config::default()),
            Stored::Text(text) => match Config::from_text(text.as_str()) {
                Ok(config) => Ok(config),
                Err(error) => Err(error.message()),
            },
            Stored::Unreadable(cause) => Err(cause.clone()),
        }
    }
}

/// Loading what a record was saved as gives that record back, whatever its
/// two values hold.
pub proof fn lemma_save_then_load(config: ConfigView)
    ensures
        load_result(StoredView::Text(encode(config))) == Ok::<ConfigView, Seq<char>>(config),
{
    lemma_decode_encode(config);
}

} // verus!
