use vstd::prelude::*;

use serde_json::Value;

use crate::audio::AudioError;
use crate::text_eq::str_equal;

verus! {

/// A value of a manifest entry as the JSON reader hands it over: one string, an
/// array whose items are strings (`Some`) or other JSON values (`None`), or any
/// other JSON value.
#[derive(Debug)]
pub enum ManifestValue {
    Text(String),
    List(Vec<Option<String>>),
    Other,
}

/// Abstract form of a manifest entry's JSON value.
pub enum ManifestValueView {
    Text(Seq<char>),
    List(Seq<Option<Seq<char>>>),
    Other,
}

pub open spec fn optional_text(item: Option<String>) -> Option<Seq<char>> {
    match item {
        Some(text) => Some(text@),
        None => None,
    }
}

impl View for ManifestValue {
    type V = ManifestValueView;

    open spec fn view(&self) -> ManifestValueView {
        match self {
            ManifestValue::Text(text) => ManifestValueView::Text(text@),
            ManifestValue::List(items) => ManifestValueView::List(
                items@.map_values(|item: Option<String>| optional_text(item)),
            ),
            ManifestValue::Other => ManifestValueView::Other,
        }
    }
}

/// Abstract form of a root object's members.
pub open spec fn members_view(members: Seq<(String, ManifestValue)>) -> Seq<(Seq<char>, ManifestValueView)> {
    members.map_values(|member: (String, ManifestValue)| (member.0@, member.1@))
}

/// Abstract form of what the JSON reader returns: the root object's members in the
/// reader's order, `None` when the root is not an object, or the reader's error text.
pub open spec fn document_view(document: Result<Option<Vec<(String, ManifestValue)>>, String>) -> Result<
    Option<Seq<(Seq<char>, ManifestValueView)>>,
    Seq<char>,
> {
    match document {
        Ok(Some(members)) => Ok(Some(members_view(members@))),
        Ok(None) => Ok(None),
        Err(message) => Err(message@),
    }
}

/// What `serde_json` reads from a manifest's text (see `read_manifest_json`).
pub uninterp spec fn json_manifest_document(json: Seq<char>) -> Result<
    Option<Seq<(Seq<char>, ManifestValueView)>>,
    Seq<char>,
>;

/// Reads `json` with `serde_json::from_str` into a `serde_json::Value` and hands
/// over, for an object root, its members in the order in which `serde_json`'s map
/// yields them, each value as `ManifestValue`; for another root, `None`; for text
/// that is not JSON, the error's display text. The result is named, as a function
/// of the text alone: nothing is claimed of which texts parse or of the order of
/// the members.
#[verifier::external_body]
fn read_manifest_json(json: &str) -> (document: Result<Option<Vec<(String, ManifestValue)>>, String>)
    ensures
        document_view(document) == json_manifest_document(json@),
{
    let root: Value = match serde_json::from_str(json) {
        Ok(root) => root,
        Err(error) => return Err(error.to_string()),
    };
    let Value::Object(members) = root else { return Ok(None) };
    Ok(Some(members.into_iter().map(|(key, value)| {
        let value = match value {
            Value::String(text) => ManifestValue::Text(text),
            Value::Array(items) => ManifestValue::List(items.into_iter().map(|item| match item {
                Value::String(text) => Some(text), _ => None }).collect()),
            _ => ManifestValue::Other,
        };
        (key, value)
    }).collect()))
}

/// Whether `c` has the Unicode White_Space property, as `char::is_whitespace` and
/// `str::trim` use it.
pub open spec fn is_white_space(c: char) -> bool {
    let code = c as u32;
    ||| 0x09 <= code <= 0x0d
    ||| code == 0x20
    ||| code == 0x85
    ||| code == 0xa0
    ||| code == 0x1680
    ||| 0x2000 <= code <= 0x200a
    ||| code == 0x2028
    ||| code == 0x2029
    ||| code == 0x202f
    ||| code == 0x205f
    ||| code == 0x3000
}

/// Whether trimming `text` leaves nothing.
pub open spec fn is_blank(text: Seq<char>) -> bool {
    forall|i: int| 0 <= i < text.len() ==> #[trigger] is_white_space(text[i])
}

pub open spec fn ascii_lower(c: char) -> char {
    if 'A' <= c && c <= 'Z' {
        ((c as u8) + 32) as char
    } else {
        c
    }
}

/// Whether `path` ends in ".wav", ASCII letters compared without regard to case.
pub open spec fn has_wav_extension(path: Seq<char>) -> bool {
    let n = path.len();
    &&& n >= 4
    &&& ascii_lower(path[n - 4]) == '.'
    &&& ascii_lower(path[n - 3]) == 'w'
    &&& ascii_lower(path[n - 2]) == 'a'
    &&& ascii_lower(path[n - 1]) == 'v'
}

/// `"SFX manifest entry '<key>' "` followed by `rest`.
pub open spec fn entry_message(key: Seq<char>, rest: Seq<char>) -> Seq<char> {
    "SFX manifest entry '"@ + key + "' "@ + rest
}

pub open spec fn missing_entry_message(key: Seq<char>) -> Seq<char> {
    "missing required SFX manifest entry '"@ + key + "'"@
}

pub open spec fn unsupported_format_message(key: Seq<char>, path: Seq<char>) -> Seq<char> {
    "unsupported audio format for SFX manifest entry '"@ + key + "': '"@ + path + "'"@
}

/// Why `path` cannot be the file of manifest entry `key`, if it cannot.
pub open spec fn path_error(key: Seq<char>, path: Seq<char>) -> Option<Seq<char>> {
    if is_blank(path) {
        Some(entry_message(key, "contains an empty path"@))
    } else if !has_wav_extension(path) {
        Some(unsupported_format_message(key, path))
    } else {
        None
    }
}

/// The paths of an array entry, appended to `collected`, or the error of the first
/// item that is not a usable path.
pub open spec fn list_paths(key: Seq<char>, collected: Seq<Seq<char>>, items: Seq<Option<Seq<char>>>) -> Result<
    Seq<Seq<char>>,
    Seq<char>,
>
    decreases items.len(),
{
    if items.len() == 0 {
        Ok(collected)
    } else {
        match items[0] {
            None => Err(entry_message(key, "must contain only file path strings"@)),
            Some(path) => match path_error(key, path) {
                Some(message) => Err(message),
                None => list_paths(key, collected.push(path), items.drop_first()),
            },
        }
    }
}

/// The paths that manifest entry `key` stands for, or why it is refused.
pub open spec fn entry_paths(key: Seq<char>, value: ManifestValueView) -> Result<Seq<Seq<char>>, Seq<char>> {
    if is_blank(key) {
        Err("SFX manifest keys must not be empty"@)
    } else {
        match value {
            ManifestValueView::Text(path) => match path_error(key, path) {
                Some(message) => Err(message),
                None => Ok(seq![path]),
            },
            ManifestValueView::List(items) => if items.len() == 0 {
                Err(entry_message(key, "must contain at least one WAV path"@))
            } else {
                list_paths(key, Seq::empty(), items)
            },
            ManifestValueView::Other => Err(
                entry_message(key, "must be a WAV path string or an array of WAV paths"@),
            ),
        }
    }
}

/// The position of the first entry named `key`, from position `start` on, or -1.
pub open spec fn key_position(entries: Seq<(Seq<char>, Seq<Seq<char>>)>, key: Seq<char>, start: int) -> int
    decreases entries.len() - start,
{
    if start < 0 || start >= entries.len() {
        -1
    } else if entries[start].0 == key {
        start
    } else {
        key_position(entries, key, start + 1)
    }
}

/// The paths stored under `key`, if any.
pub open spec fn lookup(entries: Seq<(Seq<char>, Seq<Seq<char>>)>, key: Seq<char>) -> Option<Seq<Seq<char>>> {
    let position = key_position(entries, key, 0);
    if position < 0 {
        None
    } else {
        Some(entries[position].1)
    }
}

/// `entries` with `key` mapped to `paths`: an existing entry's paths are replaced,
/// a new key is added at the end.
pub open spec fn put(entries: Seq<(Seq<char>, Seq<Seq<char>>)>, key: Seq<char>, paths: Seq<Seq<char>>) -> Seq<
    (Seq<char>, Seq<Seq<char>>),
> {
    let position = key_position(entries, key, 0);
    if position < 0 {
        entries.push((key, paths))
    } else {
        entries.update(position, (key, paths))
    }
}

/// The entries of a manifest whose members are `members`, added to `entries` in
/// order, or the error of the first member that is refused.
pub open spec fn collect_entries(
    entries: Seq<(Seq<char>, Seq<Seq<char>>)>,
    members: Seq<(Seq<char>, ManifestValueView)>,
) -> Result<Seq<(Seq<char>, Seq<Seq<char>>)>, Seq<char>>
    decreases members.len(),
{
    if members.len() == 0 {
        Ok(entries)
    } else {
        match entry_paths(members[0].0, members[0].1) {
            Err(message) => Err(message),
            Ok(paths) => collect_entries(put(entries, members[0].0, paths), members.drop_first()),
        }
    }
}

/// The manifest, or the message of the error, that the JSON reader's result gives.
pub open spec fn manifest_from_document(
    document: Result<Option<Seq<(Seq<char>, ManifestValueView)>>, Seq<char>>,
) -> Result<Seq<(Seq<char>, Seq<Seq<char>>)>, Seq<char>> {
    match document {
        Err(reason) => Err("invalid SFX manifest JSON: "@ + reason),
        Ok(None) => Err("invalid SFX manifest JSON: root must be an object"@),
        Ok(Some(members)) => collect_entries(Seq::empty(), members),
    }
}

/// Every entry has a non-blank key, at least one path, and only paths that name a
/// WAV file and are not blank.
pub open spec fn entries_valid(entries: Seq<(Seq<char>, Seq<Seq<char>>)>) -> bool {
    forall|i: int|
        0 <= i < entries.len() ==> {
            &&& !is_blank(#[trigger] entries[i].0)
            &&& entries[i].1.len() > 0
            &&& forall|j: int| 0 <= j < entries[i].1.len() ==> path_error(entries[i].0, #[trigger] entries[i].1[j]) is None
        }
}

/// Sound effect files by name, as a game's manifest lists them.
#[derive(Debug)]
pub struct SfxManifest {
    entries: Vec<(String, Vec<String>)>,
}

pub open spec fn paths_view(paths: Vec<String>) -> Seq<Seq<char>> {
    paths@.map_values(|path: String| path@)
}

impl View for SfxManifest {
    type V = Seq<(Seq<char>, Seq<Seq<char>>)>;

    closed spec fn view(&self) -> Seq<(Seq<char>, Seq<Seq<char>>)> {
        self.entries@.map_values(|entry: (String, Vec<String>)| (entry.0@, paths_view(entry.1)))
    }
}

/// Abstract form of a manifest operation's result.
pub open spec fn manifest_result_view(result: Result<SfxManifest, AudioError>) -> Result<
    Seq<(Seq<char>, Seq<Seq<char>>)>,
    Seq<char>,
> {
    match result {
        Ok(manifest) => Ok(manifest@),
        Err(error) => Err(error@),
    }
}

fn entry_error(key: &str, rest: &str) -> (error: AudioError)
    ensures
        error@ == entry_message(key@, rest@),
{
    let mut message = String::from_str("SFX manifest entry '");
    message.append(key);
    message.append("' ");
    message.append(rest);
    AudioError::from_string(message)
}

fn missing_entry_error(key: &str) -> (error: AudioError)
    ensures
        error@ == missing_entry_message(key@),
{
    let mut message = String::from_str("missing required SFX manifest entry '");
    message.append(key);
    message.append("'");
    AudioError::from_string(message)
}

fn is_white_space_char(c: char) -> (white: bool)
    ensures
        white == is_white_space(c),
{
    let code = c as u32;
    (0x09 <= code && code <= 0x0d) || code == 0x20 || code == 0x85 || code == 0xa0 || code
        == 0x1680 || (0x2000 <= code && code <= 0x200a) || code == 0x2028 || code == 0x2029
        || code == 0x202f || code == 0x205f || code == 0x3000
}

/// Whether `text` is empty once trimmed.
fn is_blank_text(text: &str) -> (blank: bool)
    ensures
        blank == is_blank(text@),
{
    let ghost chars = text@;
    let mut blank = true;
    for character in it: text.chars()
        invariant
            it.seq() == chars,
            blank == forall|j: int| 0 <= j < it.index() ==> #[trigger] is_white_space(chars[j]),
    {
        let ghost i = it.index();
        assert(character == chars[i]);
        if !is_white_space_char(character) {
            blank = false;
        }
    }
    blank
}

fn ascii_lower_char(c: char) -> (lower: char)
    ensures
        lower == ascii_lower(c),
{
    if 'A' <= c && c <= 'Z' {
        ((c as u8) + 32) as char
    } else {
        c
    }
}

fn ends_with_wav(path: &str) -> (wav: bool)
    ensures
        wav == has_wav_extension(path@),
{
    let n = path.unicode_len();
    if n < 4 {
        return false;
    }
    ascii_lower_char(path.get_char(n - 4)) == '.' && ascii_lower_char(path.get_char(n - 3)) == 'w'
        && ascii_lower_char(path.get_char(n - 2)) == 'a' && ascii_lower_char(path.get_char(n - 1))
        == 'v'
}

/// Refuses a path that is blank or does not name a WAV file; hands back `path`
/// otherwise.
pub fn validate_path<'a>(key: &str, path: &'a str) -> (result: Result<&'a str, AudioError>)
    ensures
        match path_error(key@, path@) {
            None => result == Ok::<&'a str, AudioError>(path),
            Some(message) => result matches Err(error) && error@ == message,
        },
{
    if is_blank_text(path) {
        return Err(entry_error(key, "contains an empty path"));
    }
    if !ends_with_wav(path) {
        let mut message = String::from_str("unsupported audio format for SFX manifest entry '");
        message.append(key);
        message.append("': '");
        message.append(path);
        message.append("'");
        return Err(AudioError::from_string(message));
    }
    Ok(path)
}

fn to_owned_text(text: &str) -> (owned: String)
    ensures
        owned@ == text@,
{
    String::from_str(text)
}

/// The paths of an array entry, in order.
fn list_entry_paths(key: &str, items: &Vec<Option<String>>) -> (result: Result<Vec<String>, AudioError>)
    ensures
        match list_paths(key@, Seq::empty(), items@.map_values(|item: Option<String>| optional_text(item))) {
            Ok(paths) => result matches Ok(found) && paths_view(found) == paths,
            Err(message) => result matches Err(error) && error@ == message,
        },
{
    let ghost all = items@.map_values(|item: Option<String>| optional_text(item));
    let mut paths: Vec<String> = Vec::new();
    assert(paths_view(paths) =~= Seq::<Seq<char>>::empty());
    assert(all.skip(0) =~= all);
    let mut i: usize = 0;
    while i < items.len()
        invariant
            i <= items@.len(),
            all == items@.map_values(|item: Option<String>| optional_text(item)),
            list_paths(key@, Seq::empty(), all) == list_paths(key@, paths_view(paths), all.skip(i as int)),
        decreases items@.len() - i,
    {
        assert(all.skip(i as int).drop_first() =~= all.skip(i + 1));
        assert(all.skip(i as int)[0] == optional_text(items@[i as int]));
        match &items[i] {
            None => {
                return Err(entry_error(key, "must contain only file path strings"));
            },
            Some(path) => {
                match validate_path(key, path.as_str()) {
                    Err(error) => {
                        return Err(error);
                    },
                    Ok(valid) => {
                        let owned = to_owned_text(valid);
                        let ghost before = paths_view(paths);
                        paths.push(owned);
                        assert(paths_view(paths) =~= before.push(path@));
                    },
                }
            },
        }
        i = i + 1;
    }
    assert(all.skip(i as int) =~= Seq::<Option<Seq<char>>>::empty());
    Ok(paths)
}

/// The paths of one manifest member, or why it is refused.
fn member_paths(key: &str, value: &ManifestValue) -> (result: Result<Vec<String>, AudioError>)
    ensures
        match entry_paths(key@, value@) {
            Ok(paths) => result matches Ok(found) && paths_view(found) == paths,
            Err(message) => result matches Err(error) && error@ == message,
        },
{
    if is_blank_text(key) {
        return Err(AudioError::new("SFX manifest keys must not be empty"));
    }
    match value {
        ManifestValue::Text(path) => {
            let valid = match validate_path(key, path.as_str()) {
                Ok(valid) => valid,
                Err(error) => {
                    return Err(error);
                },
            };
            let mut paths: Vec<String> = Vec::new();
            paths.push(to_owned_text(valid));
            assert(paths_view(paths) =~= seq![path@]);
            Ok(paths)
        },
        ManifestValue::List(items) => {
            if items.len() == 0 {
                return Err(entry_error(key, "must contain at least one WAV path"));
            }
            list_entry_paths(key, items)
        },
        ManifestValue::Other => {
            Err(entry_error(key, "must be a WAV path string or an array of WAV paths"))
        },
    }
}

impl SfxManifest {
    /// The position of the entry named `key`.
    fn find(&self, key: &str) -> (position: Option<usize>)
        ensures
            match position {
                Some(p) => p == key_position(self@, key@, 0) && 0 <= p < self@.len(),
                None => key_position(self@, key@, 0) < 0,
            },
    {
        let mut i: usize = 0;
        while i < self.entries.len()
            invariant
                i <= self.entries@.len(),
                self@.len() == self.entries@.len(),
                key_position(self@, key@, 0) == key_position(self@, key@, i as int),
            decreases self.entries@.len() - i,
        {
            assert(self@[i as int].0 == self.entries@[i as int].0@);
            if str_equal(self.entries[i].0.as_str(), key) {
                return Some(i);
            }
            i = i + 1;
        }
        None
    }

    /// Maps `key` to `paths`, replacing the paths of an existing entry.
    fn insert(&mut self, key: String, paths: Vec<String>)
        ensures
            final(self)@ == put(old(self)@, key@, paths_view(paths)),
    {
        match self.find(key.as_str()) {
            Some(position) => {
                self.entries.set(position, (key, paths));
            },
            None => {
                self.entries.push((key, paths));
            },
        }
        assert(self@ =~= put(old(self)@, key@, paths_view(paths)));
    }

    /// Builds a manifest from what the JSON reader returned for its text: the
    /// members in order, each checked, the first refused member's error returned.
    pub fn from_json_document(document: Result<Option<Vec<(String, ManifestValue)>>, String>) -> (result: Result<
        SfxManifest,
        AudioError,
    >)
        ensures
            manifest_result_view(result) == manifest_from_document(document_view(document)),
            result matches Ok(manifest) ==> entries_valid(manifest@),
    {
        let ghost expected = manifest_from_document(document_view(document));
        let members = match document {
            Err(reason) => {
                let mut message = String::from_str("invalid SFX manifest JSON: ");
                message.append(reason.as_str());
                return Err(AudioError::from_string(message));
            },
            Ok(None) => {
                return Err(AudioError::new("invalid SFX manifest JSON: root must be an object"));
            },
            Ok(Some(members)) => members,
        };
        let ghost all = members_view(members@);
        let mut manifest = SfxManifest { entries: Vec::new() };
        assert(manifest@ =~= Seq::<(Seq<char>, Seq<Seq<char>>)>::empty());
        assert(all.skip(0) =~= all);
        let mut i: usize = 0;
        while i < members.len()
            invariant
                i <= members@.len(),
                all == members_view(members@),
                expected == collect_entries(Seq::empty(), all),
                expected == manifest_from_document(document_view(document)),
                collect_entries(Seq::empty(), all) == collect_entries(manifest@, all.skip(i as int)),
                entries_valid(manifest@),
            decreases members@.len() - i,
        {
            assert(all.skip(i as int).drop_first() =~= all.skip(i + 1));
            assert(all.skip(i as int)[0] == (members@[i as int].0@, members@[i as int].1@));
            let key = members[i].0.as_str();
            let ghost rest = all.skip(i as int);
            let paths = match member_paths(key, &members[i].1) {
                Ok(paths) => paths,
                Err(error) => {
                    assert(rest[0].0 == key@ && rest[0].1 == members@[i as int].1@);
                    assert(collect_entries(manifest@, rest) == Err::<Seq<(Seq<char>, Seq<Seq<char>>)>, Seq<char>>(error@));
                    return Err(error);
                },
            };
            proof {
                lemma_entry_paths_valid(key@, members@[i as int].1@);
                lemma_put_valid(manifest@, key@, paths_view(paths));
            }
            manifest.insert(to_owned_text(key), paths);
            i = i + 1;
        }
        assert(all.skip(i as int) =~= Seq::<(Seq<char>, ManifestValueView)>::empty());
        Ok(manifest)
    }

    /// Reads a manifest: a JSON object whose members map a sound name to one WAV
    /// path or to a non-empty array of WAV paths.
    pub fn parse(json: &str) -> (result: Result<Self, AudioError>)
        ensures
            manifest_result_view(result) == manifest_from_document(json_manifest_document(json@)),
            result matches Ok(manifest) ==> entries_valid(manifest@),
    {
        SfxManifest::from_json_document(read_manifest_json(json))
    }

    /// Whether the manifest has an entry named `key`.
    pub fn contains_key(&self, key: &str) -> (found: bool)
        ensures
            found == (lookup(self@, key@) is Some),
    {
        self.find(key).is_some()
    }

    /// The paths of the entry named `key`.
    pub fn paths(&self, key: &str) -> (paths: Option<&[String]>)
        ensures
            match lookup(self@, key@) {
                Some(stored) => paths matches Some(found) && found@.map_values(|path: String| path@)
                    == stored,
                None => paths is None,
            },
    {
        match self.find(key) {
            Some(position) => {
                let found = self.entries[position].1.as_slice();
                assert(found@.map_values(|path: String| path@) =~= paths_view(
                    self.entries@[position as int].1,
                ));
                Some(found)
            },
            None => None,
        }
    }

    /// The one path of the entry named `key`.
    pub fn path(&self, key: &str) -> (result: Result<&str, AudioError>)
        ensures
            match lookup(self@, key@) {
                None => result matches Err(error) && error@ == missing_entry_message(key@),
                Some(stored) => if stored.len() == 1 {
                    result matches Ok(path) && path@ == stored[0]
                } else {
                    result matches Err(error) && error@ == entry_message(
                        key@,
                        "must contain exactly one WAV path"@,
                    )
                },
            },
    {
        let position = match self.find(key) {
            Some(position) => position,
            None => {
                return Err(missing_entry_error(key));
            },
        };
        let paths = &self.entries[position].1;
        if paths.len() != 1 {
            return Err(entry_error(key, "must contain exactly one WAV path"));
        }
        assert(self@[position as int].1[0] == paths@[0]@);
        Ok(paths[0].as_str())
    }

    /// Refuses the manifest unless it has an entry for each of `keys`; the error
    /// names the first key, in order, that has none.
    pub fn require_keys(&self, keys: &[&str]) -> (result: Result<(), AudioError>)
        ensures
            match first_missing(self@, keys@.map_values(|key: &str| key@)) {
                None => result is Ok,
                Some(key) => result matches Err(error) && error@ == missing_entry_message(key),
            },
    {
        let ghost names = keys@.map_values(|key: &str| key@);
        assert(names.skip(0) =~= names);
        let mut i: usize = 0;
        while i < keys.len()
            invariant
                i <= keys@.len(),
                names == keys@.map_values(|key: &str| key@),
                first_missing(self@, names) == first_missing(self@, names.skip(i as int)),
            decreases keys@.len() - i,
        {
            assert(names.skip(i as int).drop_first() =~= names.skip(i + 1));
            assert(names.skip(i as int)[0] == keys@[i as int]@);
            if !self.contains_key(keys[i]) {
                return Err(missing_entry_error(keys[i]));
            }
            i = i + 1;
        }
        assert(names.skip(i as int) =~= Seq::<Seq<char>>::empty());
        Ok(())
    }
}

/// The first of `keys` that has no entry.
pub open spec fn first_missing(entries: Seq<(Seq<char>, Seq<Seq<char>>)>, keys: Seq<Seq<char>>) -> Option<Seq<char>>
    decreases keys.len(),
{
    if keys.len() == 0 {
        None
    } else if lookup(entries, keys[0]) is None {
        Some(keys[0])
    } else {
        first_missing(entries, keys.drop_first())
    }
}

proof fn lemma_list_paths_valid(key: Seq<char>, collected: Seq<Seq<char>>, items: Seq<Option<Seq<char>>>)
    requires
        forall|j: int| 0 <= j < collected.len() ==> path_error(key, #[trigger] collected[j]) is None,
    ensures
        list_paths(key, collected, items) matches Ok(paths) ==> {
            &&& paths.len() >= collected.len()
            &&& forall|j: int| 0 <= j < paths.len() ==> path_error(key, #[trigger] paths[j]) is None
        },
    decreases items.len(),
{
    if items.len() > 0 {
        if let Some(path) = items[0] {
            if path_error(key, path) is None {
                let next = collected.push(path);
                assert forall|j: int| 0 <= j < next.len() implies path_error(key, #[trigger] next[j]) is None by {
                    if j < collected.len() {
                        assert(next[j] == collected[j]);
                    }
                }
                lemma_list_paths_valid(key, next, items.drop_first());
            }
        }
    }
}

proof fn lemma_entry_paths_valid(key: Seq<char>, value: ManifestValueView)
    ensures
        entry_paths(key, value) matches Ok(paths) ==> {
            &&& !is_blank(key)
            &&& paths.len() > 0
            &&& forall|j: int| 0 <= j < paths.len() ==> path_error(key, #[trigger] paths[j]) is None
        },
{
    match value {
        ManifestValueView::Text(path) => {
            assert(seq![path][0] == path);
        },
        ManifestValueView::List(items) => {
            if items.len() > 0 {
                if let Some(path) = items[0] {
                    if path_error(key, path) is None {
                        let collected = Seq::<Seq<char>>::empty().push(path);
                        assert(collected[0] == path);
                        lemma_list_paths_valid(key, collected, items.drop_first());
                    }
                }
            }
        },
        ManifestValueView::Other => {},
    }
}

proof fn lemma_key_position_bounds(entries: Seq<(Seq<char>, Seq<Seq<char>>)>, key: Seq<char>, start: int)
    ensures
        key_position(entries, key, start) < 0 || (start <= key_position(entries, key, start) < entries.len()
            && entries[key_position(entries, key, start)].0 == key),
    decreases entries.len() - start,
{
    if 0 <= start < entries.len() && entries[start].0 != key {
        lemma_key_position_bounds(entries, key, start + 1);
    }
}

proof fn lemma_put_valid(entries: Seq<(Seq<char>, Seq<Seq<char>>)>, key: Seq<char>, paths: Seq<Seq<char>>)
    requires
        entries_valid(entries),
        !is_blank(key),
        paths.len() > 0,
        forall|j: int| 0 <= j < paths.len() ==> path_error(key, #[trigger] paths[j]) is None,
    ensures
        entries_valid(put(entries, key, paths)),
{
    lemma_key_position_bounds(entries, key, 0);
    let next = put(entries, key, paths);
    assert forall|i: int| 0 <= i < next.len() implies {
        &&& !is_blank(#[trigger] next[i].0)
        &&& next[i].1.len() > 0
        &&& forall|j: int| 0 <= j < next[i].1.len() ==> path_error(next[i].0, #[trigger] next[i].1[j]) is None
    } by {
        if next[i] != (key, paths) {
            assert(next[i] == entries[i]);
        }
    }
}

} // verus!
