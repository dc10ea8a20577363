//! Where completions are published for the monitor: a directory per
//! working directory, one file per turn, named by SHA-256 digests.

use vstd::prelude::*;
use vstd::string::*;
use crate::text::{decimal, decimal_string, push_char};
use crate::transport::{join_path, joined_path, opt_bytes, utf8};

verus! {

/// The SHA-256 digest of `data`.
pub uninterp spec fn sha256_of(data: Seq<u8>) -> Seq<u8>;

/// `Sha256::digest` of `sha2`: the 32-byte SHA-256 digest of `data`.
#[verifier::external_body]
fn sha256(data: &[u8]) -> (r: Vec<u8>)
    ensures
        r@ == sha256_of(data@),
        r@.len() == 32,
{
    <sha2::Sha256 as sha2::Digest>::digest(data).as_slice().to_vec()
}

/// The lowercase hexadecimal digit for `d`.
pub open spec fn hex_digit(d: nat) -> char {
    if d < 10 {
        (('0' as nat) + d) as char
    } else {
        (('a' as nat) + d - 10) as char
    }
}

/// Lowercase hexadecimal text of `bytes`, two digits per byte.
pub open spec fn hex_text(bytes: Seq<u8>) -> Seq<char>
    decreases bytes.len(),
{
    if bytes.len() == 0 {
        Seq::empty()
    } else {
        hex_text(bytes.drop_last()) + seq![
            hex_digit(bytes.last() as nat / 16),
            hex_digit(bytes.last() as nat % 16),
        ]
    }
}

/// The file key of `data`: the first 24 hexadecimal digits of its SHA-256
/// digest.
pub open spec fn key_text(data: Seq<u8>) -> Seq<char> {
    hex_text(sha256_of(data)).take(24)
}

/// The lowercase hexadecimal digit for `d`.
fn hex_char(d: u8) -> (r: char)
    requires
        d < 16,
    ensures
        r == hex_digit(d as nat),
{
    if d < 10 {
        (48u8 + d) as char
    } else {
        (87u8 + d) as char
    }
}

/// The hexadecimal text of a prefix has twice its length and is a prefix
/// of the text of the whole.
proof fn lemma_hex_prefix(bytes: Seq<u8>, n: int)
    requires
        0 <= n <= bytes.len(),
    ensures
        hex_text(bytes.take(n)).len() == 2 * n,
        hex_text(bytes.take(n)) == hex_text(bytes).take(2 * n),
    decreases bytes.len(),
{
    if bytes.len() > 0 {
        if n == bytes.len() {
            assert(bytes.take(n) =~= bytes);
            lemma_hex_prefix(bytes.drop_last(), n - 1);
            assert(bytes.drop_last().take(n - 1) =~= bytes.drop_last());
        } else {
            lemma_hex_prefix(bytes.drop_last(), n);
            assert(bytes.drop_last().take(n) =~= bytes.take(n));
            lemma_hex_prefix(bytes.drop_last(), bytes.len() - 1);
            assert(bytes.drop_last().take(bytes.len() - 1) =~= bytes.drop_last());
            assert(hex_text(bytes) =~= hex_text(bytes.drop_last()) + seq![
                hex_digit(bytes.last() as nat / 16),
                hex_digit(bytes.last() as nat % 16),
            ]);
            assert(hex_text(bytes).take(2 * n) =~= hex_text(bytes.drop_last()).take(2 * n));
        }
    } else {
        assert(bytes.take(n) =~= bytes);
    }
}

/// The file key of `data`.
pub fn key(data: &[u8]) -> (r: String)
    ensures
        r@ == key_text(data@),
{
    let digest = sha256(data);
    let mut out = String::new();
    let mut i: usize = 0;
    assert(digest@.take(0) =~= Seq::<u8>::empty());
    while i < 12
        invariant
            0 <= i <= 12,
            digest@.len() == 32,
            digest@ == sha256_of(data@),
            out@ == hex_text(digest@.take(i as int)),
        decreases 12 - i,
    {
        let b = digest[i];
        assert(digest@.take(i + 1).drop_last() =~= digest@.take(i as int));
        push_char(&mut out, hex_char(b / 16));
        push_char(&mut out, hex_char(b % 16));
        assert(out@ =~= hex_text(digest@.take(i + 1)));
        i = i + 1;
    }
    proof {
        lemma_hex_prefix(digest@, 12);
    }
    out
}

/// The root of the plugin data: `CLAUDE_PLUGIN_DATA` when set, else
/// `.codex-app` under `$HOME`, else under `.`; paths as raw bytes.
pub open spec fn data_root_path(plugin_data: Option<Seq<u8>>, home: Option<Seq<u8>>) -> Seq<u8> {
    match plugin_data {
        Some(d) => d,
        None => joined_path(
            match home {
                Some(h) => h,
                None => seq![46u8],
            },
            utf8(".codex-app"),
        ),
    }
}

/// The root of the plugin data for the given environment values.
pub fn data_root(plugin_data: Option<&[u8]>, home: Option<&[u8]>) -> (r: Vec<u8>)
    ensures
        r@ == data_root_path(opt_bytes(plugin_data), opt_bytes(home)),
{
    match plugin_data {
        Some(d) => vstd::slice::slice_to_vec(d),
        None => {
            let h = match home {
                Some(h) => vstd::slice::slice_to_vec(h),
                None => {
                    let mut d: Vec<u8> = Vec::new();
                    d.push(46u8);
                    assert(d@ =~= seq![46u8]);
                    d
                },
            };
            join_path(h.as_slice(), ".codex-app".as_bytes())
        },
    }
}

/// The identity of a turn: thread id, a NUL character, turn id.
pub open spec fn turn_identity(thread_id: Seq<char>, turn_id: Seq<char>) -> Seq<char> {
    thread_id + seq!['\0'] + turn_id
}

/// The completion directory of a working directory.
pub struct Outbox {
    directory: Vec<u8>,
}

impl View for Outbox {
    type V = Seq<u8>;

    closed spec fn view(&self) -> Seq<u8> {
        self.directory@
    }
}

/// The position of the last `.` in the file name `name`.
pub open spec fn last_dot(name: Seq<u8>) -> Option<int>
    decreases name.len(),
{
    if name.len() == 0 {
        None
    } else if name.last() == 46u8 {
        Some(name.len() - 1)
    } else {
        last_dot(name.drop_last())
    }
}

/// The extension of a file name, as `Path::extension` reads it: the bytes
/// after the last `.`, unless there is none or it is the first byte.
pub open spec fn extension_of(name: Seq<u8>) -> Option<Seq<u8>> {
    match last_dot(name) {
        None => None,
        Some(i) => if i == 0 {
            None
        } else {
            Some(name.skip(i + 1))
        },
    }
}

/// Whether the file `name`, given by its bytes, holds a completion: its
/// extension is `json`.
pub fn is_completion_file(name: &[u8]) -> (r: bool)
    ensures
        r == (extension_of(name@) == Some(utf8("json"))),
{
    let mut j: usize = name.len();
    assert(name@.take(j as int) =~= name@);
    while j > 0 && name[j - 1] != 46u8
        invariant
            0 <= j <= name@.len(),
            last_dot(name@) == last_dot(name@.take(j as int)),
        decreases j,
    {
        assert(name@.take(j as int).drop_last() =~= name@.take(j - 1));
        j = j - 1;
    }
    if j <= 1 {
        assert(j == 0 ==> name@.take(0) =~= Seq::<u8>::empty());
        assert(j == 1 ==> name@.take(1).last() == 46u8);
        return false;
    }
    assert(name@.take(j as int).last() == 46u8);
    assert(last_dot(name@.take(j as int)) == Some(j - 1));
    assert(extension_of(name@) == Some(name@.skip(j as int)));
    let json = "json".as_bytes();
    let n = name.len();
    if n - j != json.len() {
        assert(name@.skip(j as int).len() != json@.len());
        return false;
    }
    let mut k: usize = 0;
    while k < json.len()
        invariant
            1 < j <= n == name@.len(),
            n - j == json@.len(),
            json@ == utf8("json"),
            extension_of(name@) == Some(name@.skip(j as int)),
            0 <= k <= json@.len(),
            forall|i: int| 0 <= i < k ==> name@[j + i] == json@[i],
        decreases json.len() - k,
    {
        if name[j + k] != json[k] {
            assert(name@.skip(j as int)[k as int] != json@[k as int]);
            return false;
        }
        k = k + 1;
    }
    assert(name@.skip(j as int) =~= json@);
    true
}

impl Outbox {
    /// The completion directory of `cwd` under `root`, both given by
    /// their bytes: `completions/<key of cwd>`.
    pub fn new(root: &[u8], cwd: &[u8]) -> (r: Self)
        ensures
            r@ == joined_path(joined_path(root@, utf8("completions")), vstd::utf8::encode_utf8(key_text(cwd@))),
    {
        let base = join_path(root, "completions".as_bytes());
        let k = key(cwd);
        Outbox { directory: join_path(base.as_slice(), k.as_str().as_bytes()) }
    }

    /// The directory, as raw bytes.
    pub fn directory(&self) -> (r: &[u8])
        ensures
            r@ == self@,
    {
        self.directory.as_slice()
    }

    /// The key of the turn `thread_id`/`turn_id`.
    fn turn_key(thread_id: &str, turn_id: &str) -> (r: String)
        ensures
            r@ == key_text(vstd::utf8::encode_utf8(turn_identity(thread_id@, turn_id@))),
    {
        let mut identity = String::from_str(thread_id);
        push_char(&mut identity, '\0');
        identity.append(turn_id);
        assert(identity@ =~= turn_identity(thread_id@, turn_id@));
        let text = identity.as_str();
        let bytes = text.as_bytes();
        assert(bytes@ == vstd::utf8::encode_utf8(text@));
        key(bytes)
    }

    /// The file that publishes the completion of `thread_id`/`turn_id`.
    pub fn completion_file(&self, thread_id: &str, turn_id: &str) -> (r: Vec<u8>)
        ensures
            r@ == joined_path(self@, vstd::utf8::encode_utf8(
                key_text(vstd::utf8::encode_utf8(turn_identity(thread_id@, turn_id@))) + ".json"@,
            )),
    {
        let mut name = Self::turn_key(thread_id, turn_id);
        name.append(".json");
        join_path(self.directory.as_slice(), name.as_str().as_bytes())
    }

    /// The file that a completion is written to by process `pid` before it
    /// is renamed into place.
    pub fn temporary_file(&self, thread_id: &str, turn_id: &str, pid: u32) -> (r: Vec<u8>)
        ensures
            r@ == joined_path(self@, vstd::utf8::encode_utf8(
                key_text(vstd::utf8::encode_utf8(turn_identity(thread_id@, turn_id@))) + "."@
                    + decimal(pid as nat) + ".tmp"@,
            )),
    {
        let mut name = Self::turn_key(thread_id, turn_id);
        name.append(".");
        let d = decimal_string(pid as u64);
        name.append(d.as_str());
        name.append(".tmp");
        join_path(self.directory.as_slice(), name.as_str().as_bytes())
    }
}

} // verus!
