use vstd::prelude::*;

verus! {

/// Why a local storage operation failed.
#[derive(Debug, PartialEq, Eq)]
pub struct StorageError {
    message: String,
}

impl View for StorageError {
    type V = Seq<char>;

    closed spec fn view(&self) -> Seq<char> {
        self.message@
    }
}

impl Clone for StorageError {
    fn clone(&self) -> (copy: Self)
        ensures
            copy@ == self@,
    {
        StorageError { message: self.message.clone() }
    }
}

impl StorageError {
    pub fn new(message: &str) -> (error: Self)
        ensures
            error@ == message@,
    {
        StorageError { message: String::from_str(message) }
    }

    pub fn from_string(message: String) -> (error: Self)
        ensures
            error@ == message@,
    {
        StorageError { message }
    }

    /// The human-readable description of the failure.
    pub fn message(&self) -> (message: &str)
        ensures
            message@ == self@,
    {
        self.message.as_str()
    }
}

/// Small persistent key/value storage that a platform provides to games.
pub trait LocalStorage {
    fn get(&mut self, key: &str) -> Result<Option<String>, StorageError>;

    fn set(&mut self, key: &str, value: &str) -> Result<(), StorageError>;
}

/// Storage that keeps nothing: reads find no value and writes succeed.
#[derive(Debug, Default, Clone, Copy, PartialEq, Eq)]
pub struct NoopStorage;

impl LocalStorage for NoopStorage {
    fn get(&mut self, key: &str) -> (value: Result<Option<String>, StorageError>)
        ensures
            value matches Ok(None),
    {
        Ok(None)
    }

    fn set(&mut self, key: &str, value: &str) -> (result: Result<(), StorageError>)
        ensures
            result is Ok,
    {
        Ok(())
    }
}

/// A character allowed in a storage key: an ASCII letter or digit, `.`, `_` or `-`.
pub open spec fn portable_key_char(c: char) -> bool {
    ('a' <= c <= 'z') || ('A' <= c <= 'Z') || ('0' <= c <= '9') || c == '.' || c == '_' || c
        == '-'
}

/// A key that is safe as a file name on every platform: non-empty, not `.` or `..`, and
/// made of portable characters only.
pub open spec fn portable_key(key: Seq<char>) -> bool {
    &&& key.len() > 0
    &&& key != seq!['.']
    &&& key != seq!['.', '.']
    &&& forall|i: int| 0 <= i < key.len() ==> portable_key_char(#[trigger] key[i])
}

/// The message of the error for keys that are not portable.
pub open spec fn key_error_message() -> Seq<char> {
    "local storage keys may contain only ASCII letters, digits, '.', '_' and '-'"@
}

fn is_portable_key_char(c: char) -> (portable: bool)
    ensures
        portable == portable_key_char(c),
{
    ('a' <= c && c <= 'z') || ('A' <= c && c <= 'Z') || ('0' <= c && c <= '9') || c == '.' || c
        == '_' || c == '-'
}

/// Refuses keys that are not portable file names.
pub fn validate_storage_key(key: &str) -> (result: Result<(), StorageError>)
    ensures
        result is Ok <==> portable_key(key@),
        result matches Err(e) ==> e@ == key_error_message(),
{
    let ghost chars = key@;
    let count = key.unicode_len();
    let mut all_portable = true;
    let mut dots: usize = 0;
    let mut index: usize = 0;
    for character in it: key.chars()
        invariant
            count == chars.len(),
            index == it.index(),
            it.seq() == chars,
            all_portable == forall|j: int| 0 <= j < it.index() ==> portable_key_char(
                #[trigger] chars[j],
            ),
            dots <= it.index(),
            dots == it.index() <==> forall|j: int| 0 <= j < it.index() ==> #[trigger] chars[j]
                == '.',
    {
        let ghost i = it.index();
        assert(character == chars[i]);
        if !is_portable_key_char(character) {
            all_portable = false;
        }
        if character == '.' && dots == index {
            dots = dots + 1;
        }
        index = index + 1;
    }
    let only_dots = dots == count;
    proof {
        if chars == seq!['.'] || chars == seq!['.', '.'] {
            assert(forall|j: int| 0 <= j < chars.len() ==> #[trigger] chars[j] == '.');
        }
        if only_dots && (count == 1 || count == 2) {
            if count == 1 {
                assert(chars =~= seq!['.']);
            } else {
                assert(chars =~= seq!['.', '.']);
            }
        }
    }
    if count > 0 && !(only_dots && (count == 1 || count == 2)) && all_portable {
        Ok(())
    } else {
        Err(
            StorageError::new(
                "local storage keys may contain only ASCII letters, digits, '.', '_' and '-'",
            ),
        )
    }
}

/// The file name that stores `key`: the key followed by `.txt`.
pub fn storage_file_name(key: &str) -> (name: Result<String, StorageError>)
    ensures
        name is Ok <==> portable_key(key@),
        name matches Ok(n) ==> n@ == key@ + ".txt"@,
        name matches Err(e) ==> e@ == key_error_message(),
{
    match validate_storage_key(key) {
        Ok(()) => {
            let mut name = String::from_str(key);
            name.append(".txt");
            Ok(name)
        },
        Err(error) => Err(error),
    }
}

} // verus!
