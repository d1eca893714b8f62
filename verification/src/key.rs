//! Keys: namespaced names of Minecraft objects, such as
//! `minecraft:entity.firework_rocket.blast`.

use crate::cursor::unread;
use crate::error::IoError;
use crate::io::args::StringArgs;
use crate::io::impls::strings::{lemma_string_mc_roundtrip, string_read, string_write};
use crate::io::mc::{read_outcome, write_outcome, McRead, McWrite};
use std::io::Cursor;
use vstd::prelude::*;
use vstd::string::{StrSliceExecFns, StringExecFns};
use vstd::utf8::encode_utf8;

verus! {

/// The default namespace, Minecraft's.
pub const MINECRAFT_NAMESPACE: &'static str = "minecraft";

/// The default separator between namespace and path.
pub const DEFAULT_SEPARATOR: char = ':';

/// The longest string a key is read from or written as, in bytes.
pub const MAX_KEY_LENGTH: usize = 32767;

/// A character allowed in a namespace: `[a-z0-9_.-]`.
pub open spec fn namespace_char(c: char) -> bool {
    c == '_' || c == '-' || ('a' <= c && c <= 'z') || ('0' <= c && c <= '9') || c == '.'
}

/// A character allowed in a path: `[a-z0-9_.-/]`.
pub open spec fn path_char(c: char) -> bool {
    namespace_char(c) || c == '/'
}

/// Every character of a namespace is allowed there.
pub open spec fn valid_namespace(s: Seq<char>) -> bool {
    forall|i: int| 0 <= i < s.len() ==> namespace_char(#[trigger] s[i])
}

/// Every character of a path is allowed there.
pub open spec fn valid_path(s: Seq<char>) -> bool {
    forall|i: int| 0 <= i < s.len() ==> path_char(#[trigger] s[i])
}

/// What an error in building a key stands for.
pub enum KeyErrorView {
    InvalidNamespace(Seq<char>),
    InvalidPath(Seq<char>),
}

/// Building a key: the namespace is checked first, then the path; each
/// error carries what was refused.
pub open spec fn key_new(namespace: Seq<char>, path: Seq<char>) -> Result<
    (Seq<char>, Seq<char>),
    KeyErrorView,
> {
    if !valid_namespace(namespace) {
        Err(KeyErrorView::InvalidNamespace(namespace))
    } else if !valid_path(path) {
        Err(KeyErrorView::InvalidPath(path))
    } else {
        Ok((namespace, path))
    }
}

/// Where `c` first stands in `s`; -1 when it does not.
pub open spec fn first_index(s: Seq<char>, c: char) -> int
    decreases s.len(),
{
    if s.len() == 0 {
        -1
    } else if first_index(s.drop_last(), c) >= 0 {
        first_index(s.drop_last(), c)
    } else if s.last() == c {
        s.len() - 1
    } else {
        -1
    }
}

/// Parsing a key: split at the first separator into namespace and path;
/// without a separator the whole string is the path, in the `minecraft`
/// namespace.
pub open spec fn key_parse(s: Seq<char>, separator: char) -> Result<
    (Seq<char>, Seq<char>),
    KeyErrorView,
> {
    let i = first_index(s, separator);
    if i >= 0 {
        key_new(s.take(i), s.skip(i + 1))
    } else {
        key_new(MINECRAFT_NAMESPACE@, s)
    }
}

/// An object used to fetch or store unique Minecraft objects: a namespace
/// (`[a-z0-9_.-]`, such as `minecraft` or a plugin's name) and a path
/// (`[a-z0-9_.-/]`, such as `entity.firework_rocket.blast`).
#[derive(Debug, PartialEq, Eq, PartialOrd, Ord, Hash)]
pub struct Key {
    namespace: String,
    path: String,
}

/// An error in building a key: the namespace or path that holds a character
/// not allowed there.
#[derive(Clone, Debug, PartialEq, Eq)]
pub enum KeyError {
    InvalidNamespace(String),
    InvalidPath(String),
}

impl Key {
    /// A key's namespace and path are made of their allowed characters.
    #[verifier::type_invariant]
    pub closed spec fn well_formed(self) -> bool {
        valid_namespace(self.namespace@) && valid_path(self.path@)
    }
}

impl Clone for Key {
    fn clone(&self) -> (r: Key)
        ensures
            r@ == self@,
    {
        proof {
            use_type_invariant(self);
        }
        Key { namespace: self.namespace.clone(), path: self.path.clone() }
    }
}

impl View for Key {
    type V = (Seq<char>, Seq<char>);

    closed spec fn view(&self) -> (Seq<char>, Seq<char>) {
        (self.namespace@, self.path@)
    }
}

impl DeepView for Key {
    type V = (Seq<char>, Seq<char>);

    open spec fn deep_view(&self) -> (Seq<char>, Seq<char>) {
        self@
    }
}

impl View for KeyError {
    type V = KeyErrorView;

    open spec fn view(&self) -> KeyErrorView {
        match self {
            KeyError::InvalidNamespace(s) => KeyErrorView::InvalidNamespace(s@),
            KeyError::InvalidPath(s) => KeyErrorView::InvalidPath(s@),
        }
    }
}

/// How a result matches what it stands for, both sides taken by their views.
pub open spec fn key_result(r: Result<Key, KeyError>, v: Result<(Seq<char>, Seq<char>), KeyErrorView>) -> bool {
    match v {
        Ok(k) => r matches Ok(key) && key@ == k,
        Err(e) => r matches Err(err) && err@ == e,
    }
}

/// Whether every character of `s` is allowed in a namespace (or, with
/// `slash`, in a path).
fn all_allowed(s: &str, slash: bool) -> (b: bool)
    ensures
        b <==> (forall|i: int| 0 <= i < s@.len() ==> (if slash { path_char(#[trigger] s@[i]) } else { namespace_char(s@[i]) })),
{
    let n = s.unicode_len();
    let mut i: usize = 0;
    while i < n
        invariant
            n == s@.len(),
            i <= n,
            forall|j: int| 0 <= j < i ==> (if slash { path_char(#[trigger] s@[j]) } else { namespace_char(s@[j]) }),
        decreases n - i,
    {
        let c = s.get_char(i);
        let ok = c == '_' || c == '-' || ('a' <= c && c <= 'z') || ('0' <= c && c <= '9') || c == '.' || (slash
            && c == '/');
        if !ok {
            return false;
        }
        i = i + 1;
    }
    true
}

/// Where `c` first stands in `s`, if it does.
fn find_char(s: &str, c: char) -> (r: Option<usize>)
    ensures
        match r {
            Some(i) => i == first_index(s@, c),
            None => first_index(s@, c) < 0,
        },
{
    let n = s.unicode_len();
    let mut i: usize = 0;
    assert(s@.take(0) =~= Seq::<char>::empty());
    while i < n
        invariant
            n == s@.len(),
            i <= n,
            first_index(s@.take(i as int), c) < 0,
        decreases n - i,
    {
        assert(s@.take((i + 1) as int).drop_last() =~= s@.take(i as int));
        if s.get_char(i) == c {
            proof {
                lemma_first_index_prefix(s@, c, (i + 1) as int);
            }
            return Some(i);
        }
        i = i + 1;
    }
    assert(s@.take(n as int) =~= s@);
    None
}

/// Where a character first stands in a prefix is where it first stands in
/// the whole.
proof fn lemma_first_index_prefix(s: Seq<char>, c: char, j: int)
    requires
        0 <= j <= s.len(),
        first_index(s.take(j), c) >= 0,
    ensures
        first_index(s, c) == first_index(s.take(j), c),
    decreases s.len(),
{
    if j == s.len() {
        assert(s.take(j) =~= s);
    } else {
        assert(s.drop_last().take(j) =~= s.take(j));
        lemma_first_index_prefix(s.drop_last(), c, j);
    }
}

/// Where a character first stands is inside the string, holds that
/// character, and nothing before it does.
pub proof fn lemma_first_index(s: Seq<char>, c: char)
    ensures
        -1 <= first_index(s, c) < s.len(),
        first_index(s, c) >= 0 ==> s[first_index(s, c)] == c,
        forall|j: int| 0 <= j < s.len() && (first_index(s, c) < 0 || j < first_index(s, c)) ==> s[j] != c,
    decreases s.len(),
{
    if s.len() > 0 {
        lemma_first_index(s.drop_last(), c);
        assert forall|j: int| 0 <= j < s.len() && (first_index(s, c) < 0 || j < first_index(s, c)) implies s[j] != c by {
            if j < s.len() - 1 {
                assert(s.drop_last()[j] == s[j]);
            }
        }
    }
}

/// `String::push`: appends one character.
#[verifier::external_body]
fn push_char(s: &mut String, c: char)
    ensures
        final(s)@ == old(s)@.push(c),
{
    s.push(c)
}

impl Key {
    /// Builds a key from a namespace and a path, each made of its allowed
    /// characters; the namespace is checked first.
    pub fn new(namespace: &str, path: &str) -> (r: Result<Key, KeyError>)
        ensures
            key_result(r, key_new(namespace@, path@)),
    {
        let namespace = Self::validate_namespace(namespace)?;
        let path = Self::validate_path(path)?;
        Ok(Key { namespace, path })
    }

    /// Parses a key from a string and a separator: the namespace before the
    /// first separator and the path after it, or, without a separator, the
    /// whole string as a path in the `minecraft` namespace.
    pub fn parse(key: &str, separator: char) -> (r: Result<Key, KeyError>)
        ensures
            key_result(r, key_parse(key@, separator)),
    {
        match find_char(key, separator) {
            Some(i) => {
                proof {
                    lemma_first_index(key@, separator);
                }
                let n = key.unicode_len();
                let namespace = key.substring_char(0, i);
                let path = key.substring_char(i + 1, n);
                proof {
                    assert(namespace@ =~= key@.take(i as int));
                    assert(path@ =~= key@.skip(i + 1));
                }
                Self::new(namespace, path)
            },
            None => Self::new(MINECRAFT_NAMESPACE, key),
        }
    }

    /// Whether two keys have the same namespace and path.
    pub(crate) fn same_as(&self, other: &Key) -> (b: bool)
        ensures
            b == (self@ == other@),
    {
        self.namespace == other.namespace && self.path == other.path
    }

    /// Returns the namespace.
    pub fn namespace(&self) -> (r: &str)
        ensures
            r@ == self@.0,
            valid_namespace(self@.0),
            valid_path(self@.1),
    {
        proof {
            use_type_invariant(self);
        }
        self.namespace.as_str()
    }

    /// Returns the path.
    pub fn path(&self) -> (r: &str)
        ensures
            r@ == self@.1,
            valid_namespace(self@.0),
            valid_path(self@.1),
    {
        proof {
            use_type_invariant(self);
        }
        self.path.as_str()
    }

    /// Returns the key as a string: namespace, separator, path.
    pub fn as_string(&self, separator: char) -> (s: String)
        ensures
            s@ == self@.0.push(separator) + self@.1,
    {
        let mut s = String::from_str(self.namespace.as_str());
        push_char(&mut s, separator);
        s.append(self.path.as_str());
        s
    }

    /// The namespace, when all its characters are allowed.
    fn validate_namespace(namespace: &str) -> (r: Result<String, KeyError>)
        ensures
            valid_namespace(namespace@) ==> (r matches Ok(s) && s@ == namespace@),
            !valid_namespace(namespace@) ==> (r matches Err(e) && e@ == KeyErrorView::InvalidNamespace(namespace@)),
    {
        if all_allowed(namespace, false) {
            Ok(String::from_str(namespace))
        } else {
            Err(KeyError::InvalidNamespace(String::from_str(namespace)))
        }
    }

    /// The path, when all its characters are allowed.
    fn validate_path(path: &str) -> (r: Result<String, KeyError>)
        ensures
            valid_path(path@) ==> (r matches Ok(s) && s@ == path@),
            !valid_path(path@) ==> (r matches Err(e) && e@ == KeyErrorView::InvalidPath(path@)),
    {
        if all_allowed(path, true) {
            Ok(String::from_str(path))
        } else {
            Err(KeyError::InvalidPath(String::from_str(path)))
        }
    }
}

/// Arguments for reading and writing [`Key`]s.
#[derive(Clone, Copy, Debug)]
pub struct KeyArgs {
    /// The separator between the namespace and path.
    pub separator: char,
    /// Whether to skip the namespace when writing.
    pub skip_namespace: bool,
}

impl Default for KeyArgs {
    fn default() -> (r: KeyArgs)
        ensures
            r.separator == DEFAULT_SEPARATOR,
            !r.skip_namespace,
    {
        KeyArgs { separator: DEFAULT_SEPARATOR, skip_namespace: false }
    }
}

impl std::str::FromStr for Key {
    type Err = KeyError;

    fn from_str(s: &str) -> (r: Result<Key, KeyError>)
        ensures
            key_result(r, key_parse(s@, DEFAULT_SEPARATOR)),
    {
        Key::parse(s, DEFAULT_SEPARATOR)
    }
}

/// Reading a key: a string of at most [`MAX_KEY_LENGTH`] bytes, parsed with
/// the separator; a string that is no key is invalid data.
pub open spec fn key_read(args: KeyArgs, input: Seq<u8>) -> Result<((Seq<char>, Seq<char>), nat), IoError> {
    match string_read(Some(MAX_KEY_LENGTH), input) {
        Err(e) => Err(e),
        Ok((s, n)) => match key_parse(s, args.separator) {
            Ok(k) => Ok((k, n)),
            Err(_) => Err(IoError::InvalidData),
        },
    }
}

/// Writing a key: as a string of at most [`MAX_KEY_LENGTH`] bytes, either
/// its path alone or namespace, separator and path.
pub open spec fn key_write(args: KeyArgs, k: (Seq<char>, Seq<char>)) -> Result<Seq<u8>, IoError> {
    if args.skip_namespace {
        string_write(Some(MAX_KEY_LENGTH), k.1)
    } else {
        string_write(Some(MAX_KEY_LENGTH), k.0.push(args.separator) + k.1)
    }
}

impl McRead for Key {
    type Args = KeyArgs;

    open spec fn spec_read(args: KeyArgs, input: Seq<u8>) -> Result<((Seq<char>, Seq<char>), nat), IoError> {
        key_read(args, input)
    }

    open spec fn read_ok(args: KeyArgs) -> bool {
        true
    }

    open spec fn progresses(args: KeyArgs) -> bool {
        true
    }

    proof fn lemma_read_len(args: KeyArgs, input: Seq<u8>) {
        <String as McRead>::lemma_read_len(StringArgs { max_len: Some(MAX_KEY_LENGTH) }, input);
    }

    fn read(reader: &mut Cursor<&[u8]>, args: &KeyArgs) -> (r: Result<Key, IoError>) {
        let key = String::read(reader, &StringArgs { max_len: Some(MAX_KEY_LENGTH) })?;
        match Key::parse(key.as_str(), args.separator) {
            Ok(k) => Ok(k),
            Err(_) => Err(IoError::InvalidData),
        }
    }
}

impl McWrite for Key {
    type Args = KeyArgs;

    open spec fn spec_write(v: (Seq<char>, Seq<char>), args: KeyArgs) -> Result<Seq<u8>, IoError> {
        key_write(args, v)
    }

    fn write(&self, writer: &mut Vec<u8>, args: &KeyArgs) -> (r: Result<(), IoError>) {
        let string = if args.skip_namespace {
            String::from_str(self.path())
        } else {
            self.as_string(args.separator)
        };
        string.write(writer, &StringArgs { max_len: Some(MAX_KEY_LENGTH) })
    }
}

/// Parsing what a key is written as, with a separator that no namespace
/// holds, gives the key back.
pub proof fn lemma_parse_as_string(namespace: Seq<char>, path: Seq<char>, separator: char)
    requires
        valid_namespace(namespace),
        valid_path(path),
        !namespace_char(separator),
    ensures
        key_parse(namespace.push(separator) + path, separator) == Ok::<(Seq<char>, Seq<char>), KeyErrorView>((namespace, path)),
{
    let s = namespace.push(separator) + path;
    let n = namespace.len() as int;
    lemma_first_index(namespace, separator);
    if first_index(namespace, separator) >= 0 {
        assert(namespace_char(namespace[first_index(namespace, separator)]));
    }
    assert(s.take(n + 1).drop_last() =~= namespace);
    assert(s.take(n + 1).last() == separator);
    lemma_first_index_prefix(s, separator, n + 1);
    assert(s.take(n) =~= namespace);
    assert(s.skip(n + 1) =~= path);
}

/// Reading back a key that was written with its namespace, with a
/// separator that no namespace holds, gives the key back, using exactly the
/// bytes written.
pub proof fn lemma_key_roundtrip(namespace: Seq<char>, path: Seq<char>, args: KeyArgs, rest: Seq<u8>)
    requires
        valid_namespace(namespace),
        valid_path(path),
        !namespace_char(args.separator),
        !args.skip_namespace,
        key_write(args, (namespace, path)) is Ok,
    ensures
        key_read(args, key_write(args, (namespace, path))->Ok_0 + rest) == Ok::<((Seq<char>, Seq<char>), nat), IoError>(
            ((namespace, path), key_write(args, (namespace, path))->Ok_0.len()),
        ),
{
    lemma_string_mc_roundtrip(Some(MAX_KEY_LENGTH), namespace.push(args.separator) + path, rest);
    lemma_parse_as_string(namespace, path, args.separator);
}

/// The characters a key allows: in a namespace, the lowercase letters
/// `a` to `z`, the digits, `_`, `-` and `.`; in a path, those and `/`. The
/// default separator is `:` and a stored key takes at most 32767 bytes.
pub proof fn lemma_key_characters(c: char)
    ensures
        namespace_char(c) <==> (('a' <= c && c <= 'z') || ('0' <= c && c <= '9') || c == '_' || c == '-' || c == '.'),
        path_char(c) <==> (('a' <= c && c <= 'z') || ('0' <= c && c <= '9') || c == '_' || c == '-' || c == '.' || c == '/'),
        DEFAULT_SEPARATOR == ':',
        MAX_KEY_LENGTH == 32767,
        !namespace_char(DEFAULT_SEPARATOR),
{
}

} // verus!
