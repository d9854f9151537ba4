//! The staging directory manager: mapping a language name and a source
//! file's bytes to a deterministic folder path `.wws/<language>/<hash>`,
//! and a source file name to the canonical staged file `index.<ext>`.

use vstd::prelude::*;
use vstd::string::{StrSliceExecFns, StringExecFns};
use crate::hashing::{blake3_hex, blake3_hex_of, is_lower_hex_digit};

verus! {

/// The fixed root segment under which every staging folder lives.
pub open spec fn staging_root() -> Seq<char> {
    ".wws"@
}

/// The staging folder for language subfolder `lang` and content hash
/// `hash`: root, language and hash joined with `/`.
pub open spec fn folder_spec(lang: Seq<char>, hash: Seq<char>) -> Seq<char> {
    staging_root() + "/"@ + lang + "/"@ + hash
}

/// The canonical staged file inside `folder`: `<folder>/index.<ext>`.
pub open spec fn index_file_spec(folder: Seq<char>, ext: Seq<char>) -> Seq<char> {
    folder + "/index."@ + ext
}

/// The position of the last `.` in `name` that stands past the first
/// character, or 0 when there is none.
pub open spec fn last_dot(name: Seq<char>) -> int
    decreases name.len(),
{
    if name.len() <= 1 {
        0
    } else if name[name.len() - 1] == '.' {
        name.len() - 1
    } else {
        last_dot(name.drop_last())
    }
}

/// The extension of the file name `name`: what follows its last `.`, when
/// that dot stands past the first character; empty otherwise. In
/// particular a name whose only `.` is its first character (a hidden
/// file) has no extension.
pub open spec fn ext_spec(name: Seq<char>) -> Seq<char> {
    if last_dot(name) == 0 {
        Seq::<char>::empty()
    } else {
        name.subrange(last_dot(name) + 1, name.len() as int)
    }
}

/// `last_dot` finds a `.` past the first character when there is one, and
/// nothing follows the position it returns but non-dot characters.
pub proof fn lemma_last_dot(name: Seq<char>)
    ensures
        last_dot(name) == 0 || (1 <= last_dot(name) < name.len() && name[last_dot(name)]
            == '.'),
        forall|k: int| last_dot(name) < k < name.len() ==> name[k] != '.',
    decreases name.len(),
{
    if name.len() <= 1 {
    } else if name[name.len() - 1] == '.' {
    } else {
        lemma_last_dot(name.drop_last());
        assert forall|k: int| last_dot(name) < k < name.len() implies name[k] != '.' by {
            if k < name.len() - 1 {
                assert(name.drop_last()[k] == name[k]);
            }
        }
    }
}

/// Extract the extension of the file name `name`: the portion after its
/// last `.` past the first character, or the empty string when there is
/// none.
pub fn extension_of(name: &str) -> (ext: String)
    ensures
        ext@ == ext_spec(name@),
{
    let n: usize = name.unicode_len();
    let mut i: usize = n;
    let mut found: usize = 0;
    while i > 1 && found == 0
        invariant
            n == name@.len(),
            i <= n,
            found == 0 ==> forall|k: int| i <= k < n ==> name@[k] != '.',
            found != 0 ==> 1 <= found < n && name@[found as int] == '.' && (forall|k: int|
                found < k < n ==> name@[k] != '.'),
        decreases i,
    {
        i = i - 1;
        if name.get_char(i) == '.' {
            found = i;
        }
    }
    proof {
        lemma_last_dot(name@);
    }
    if found == 0 {
        assert(last_dot(name@) == 0);
        String::new()
    } else {
        assert(last_dot(name@) == found as int);
        let sub = name.substring_char(found + 1, n);
        String::from_str(sub)
    }
}

/// A content-addressed staging directory: one folder whose path is derived
/// from a language subfolder name and the hash of a source file's bytes,
/// meant to hold that single source file under the name `index.<ext>`.
pub struct Data {
    /// The resolved folder path, `.wws/<language>/<hash>`.
    pub folder: String,
}

impl Data {
    /// Resolve the staging folder for `lang_folder` and a source file
    /// whose bytes are `content`: the fixed root, the language subfolder
    /// and the content hash, joined with `/`.
    pub fn new(lang_folder: String, content: &[u8]) -> (d: Data)
        ensures
            d.folder@ == folder_spec(lang_folder@, blake3_hex_of(content@)),
    {
        let hash = Self::file_hash(content);
        let folder = String::from_str(".wws").concat("/").concat(lang_folder.as_str()).concat(
            "/",
        ).concat(hash.as_str());
        Data { folder }
    }

    /// The canonical path of the staged copy of `file_name` inside this
    /// folder: `<folder>/index.<ext>`, where `<ext>` is `file_name`'s
    /// extension — empty when it has none, leaving a file literally named
    /// `index.`.
    pub fn index_file_path(&self, file_name: &str) -> (p: String)
        ensures
            p@ == index_file_spec(self.folder@, ext_spec(file_name@)),
    {
        let ext = extension_of(file_name);
        self.folder.clone().concat("/index.").concat(ext.as_str())
    }

    /// The content hash of a source file whose bytes are `content`: the
    /// lowercase hexadecimal blake3 digest, 64 hex characters, a function
    /// of the bytes alone.
    pub fn file_hash(content: &[u8]) -> (h: String)
        ensures
            h@ == blake3_hex_of(content@),
            h@.len() == 64,
            forall|i: int| 0 <= i < 64 ==> is_lower_hex_digit(#[trigger] h@[i]),
    {
        blake3_hex(content)
    }
}

/// Resolving a staging folder is deterministic: the same language
/// subfolder and byte-identical source content always yield the same
/// folder path, so resolving twice lands on one folder.
pub proof fn lemma_folder_deterministic(
    lang1: Seq<char>,
    content1: Seq<u8>,
    lang2: Seq<char>,
    content2: Seq<u8>,
)
    requires
        lang1 == lang2,
        content1 == content2,
    ensures
        folder_spec(lang1, blake3_hex_of(content1)) == folder_spec(lang2, blake3_hex_of(content2)),
{
}

/// A file name with no extension — no `.` past its first character —
/// stages to a file literally named `index.`, with nothing after the dot.
pub proof fn lemma_no_extension_index_name(folder: Seq<char>, name: Seq<char>)
    requires
        forall|k: int| 1 <= k < name.len() ==> name[k] != '.',
    ensures
        index_file_spec(folder, ext_spec(name)) == folder + "/index."@,
{
    lemma_last_dot(name);
    assert(last_dot(name) == 0);
    assert(index_file_spec(folder, ext_spec(name)) =~= folder + "/index."@);
}

} // verus!
