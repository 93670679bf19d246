//! Strings of the operating system, held as bytes that need not be UTF-8.

use vstd::prelude::*;

verus! {

/// The bytes of `s` in UTF-8.
pub open spec fn utf8(s: Seq<char>) -> Seq<u8> {
    vstd::utf8::encode_utf8(s)
}

/// What `String::from_utf8_lossy` makes of `bytes`.
pub uninterp spec fn utf8_lossy(bytes: Seq<u8>) -> Seq<char>;

/// Calls `String::from_utf8_lossy`. The result depends on the bytes alone, and bytes
/// that are UTF-8 are decoded as they stand; what replaces the others is left unsaid.
#[verifier::external_body]
fn decode_lossy(bytes: &Vec<u8>) -> (res: String)
    ensures
        res@ == utf8_lossy(bytes@),
        vstd::utf8::valid_utf8(bytes@) ==> res@ == vstd::utf8::decode_utf8(bytes@),
{
    String::from_utf8_lossy(bytes).into_owned()
}

/// Calls `String::from_utf8`, which decodes the bytes where they are UTF-8 and fails
/// where they are not.
#[verifier::external_body]
fn decode_strict(bytes: Vec<u8>) -> (res: Option<String>)
    ensures
        match res {
            Some(s) => vstd::utf8::valid_utf8(bytes@) && s@ == vstd::utf8::decode_utf8(bytes@),
            None => !vstd::utf8::valid_utf8(bytes@),
        },
{
    String::from_utf8(bytes).ok()
}

/// A string of the operating system: a path, or an argument of a command.
#[derive(Clone, Debug, PartialEq, Eq)]
pub struct OsText {
    pub bytes: Vec<u8>,
}

impl View for OsText {
    type V = Seq<u8>;

    open spec fn view(&self) -> Seq<u8> {
        self.bytes@
    }
}

/// The views of the strings in `v`.
pub open spec fn os_views(v: Seq<OsText>) -> Seq<Seq<u8>> {
    v.map_values(|t: OsText| t@)
}

/// The view of an optional string.
pub open spec fn opt_os_view(t: Option<OsText>) -> Option<Seq<u8>> {
    match t {
        Some(t) => Some(t@),
        None => None,
    }
}

/// `s` begins with `prefix`.
pub open spec fn begins_with(s: Seq<u8>, prefix: Seq<u8>) -> bool {
    prefix.len() <= s.len() && s.take(prefix.len() as int) == prefix
}

/// The path of the file `name` in `directory`, with one slash (47) between the two. A name
/// that is a path from the root stands for itself, and an empty directory adds nothing.
pub open spec fn path_in(directory: Seq<u8>, name: Seq<u8>) -> Seq<u8> {
    if name.len() > 0 && name[0] == 47 {
        name
    } else if directory.len() == 0 || directory.last() == 47 {
        directory + name
    } else {
        directory.push(47) + name
    }
}

impl OsText {
    /// The string with these bytes.
    pub fn from_bytes(bytes: Vec<u8>) -> (res: OsText)
        ensures
            res@ == bytes@,
    {
        OsText { bytes }
    }

    /// `s` as a string of the operating system.
    pub fn from_text(s: &str) -> (res: OsText)
        ensures
            res@ == utf8(s@),
    {
        OsText { bytes: s.as_bytes_vec() }
    }

    /// A copy of this string.
    pub fn copy(&self) -> (res: OsText)
        ensures
            res@ == self@,
    {
        let mut bytes: Vec<u8> = Vec::new();
        let mut i: usize = 0;
        while i < self.bytes.len()
            invariant
                i <= self.bytes.len(),
                bytes@ == self.bytes@.take(i as int),
            decreases self.bytes.len() - i,
        {
            bytes.push(self.bytes[i]);
            i = i + 1;
        }
        assert(self.bytes@.take(i as int) == self.bytes@);
        OsText { bytes }
    }

    /// This string in characters, with a replacement for what is not UTF-8.
    pub fn lossy(&self) -> (res: String)
        ensures
            res@ == utf8_lossy(self@),
            vstd::utf8::valid_utf8(self@) ==> res@ == vstd::utf8::decode_utf8(self@),
    {
        decode_lossy(&self.bytes)
    }

    /// This string in characters, where it is UTF-8.
    pub fn to_text(&self) -> (res: Option<String>)
        ensures
            match res {
                Some(s) => vstd::utf8::valid_utf8(self@) && s@ == vstd::utf8::decode_utf8(self@),
                None => !vstd::utf8::valid_utf8(self@),
            },
    {
        decode_strict(self.copy().bytes)
    }

    /// The path of the file `name` in this directory.
    pub fn join(&self, name: &str) -> (res: OsText)
        ensures
            res@ == path_in(self@, utf8(name@)),
    {
        let mut tail = name.as_bytes_vec();
        let ghost named = tail@;
        if tail.len() > 0 && tail[0] == 47 {
            return OsText { bytes: tail };
        }
        let mut bytes = self.copy().bytes;
        if bytes.len() > 0 && bytes[bytes.len() - 1] != 47 {
            bytes.push(47);
        }
        bytes.append(&mut tail);
        assert(bytes@ == path_in(self@, named));
        OsText { bytes }
    }

    /// Whether this string begins with `prefix`.
    pub fn starts_with(&self, prefix: &str) -> (res: bool)
        ensures
            res == begins_with(self@, utf8(prefix@)),
    {
        let wanted = prefix.as_bytes_vec();
        if self.bytes.len() < wanted.len() {
            return false;
        }
        let mut i: usize = 0;
        while i < wanted.len()
            invariant
                wanted@ == utf8(prefix@),
                wanted.len() <= self.bytes.len(),
                i <= wanted.len(),
                forall|j: int| 0 <= j < i ==> self.bytes@[j] == wanted@[j],
            decreases wanted.len() - i,
        {
            if self.bytes[i] != wanted[i] {
                assert(self.bytes@.take(wanted@.len() as int)[i as int] != wanted@[i as int]);
                return false;
            }
            i = i + 1;
        }
        assert(self.bytes@.take(wanted@.len() as int) == wanted@);
        true
    }

    /// Whether this string is `s`.
    pub fn is(&self, s: &str) -> (res: bool)
        ensures
            res == (self@ == utf8(s@)),
    {
        let same_len = self.bytes.len() == s.as_bytes_vec().len();
        assert(same_len ==> self@.take(self@.len() as int) == self@);
        same_len && self.starts_with(s)
    }
}

/// A copy of `v`.
pub fn copy_all(v: &Vec<OsText>) -> (res: Vec<OsText>)
    ensures
        os_views(res@) == os_views(v@),
{
    let mut res: Vec<OsText> = Vec::new();
    let mut i: usize = 0;
    while i < v.len()
        invariant
            i <= v.len(),
            os_views(res@) == os_views(v@).take(i as int),
        decreases v.len() - i,
    {
        let ghost before = res@;
        res.push(v[i].copy());
        proof {
            assert(os_views(res@) == os_views(before).push(v@[i as int]@));
            assert(os_views(v@).take(i + 1) == os_views(v@).take(i as int).push(v@[i as int]@));
        }
        i = i + 1;
    }
    assert(os_views(v@).take(i as int) == os_views(v@));
    res
}

/// A text begins with another one if and only if something follows that one in it.
pub proof fn theorem_begins_with(s: Seq<u8>, prefix: Seq<u8>)
    ensures
        begins_with(s, prefix) <==> exists|rest: Seq<u8>| s == #[trigger] (prefix + rest),
{
    if begins_with(s, prefix) {
        assert(s == prefix + s.skip(prefix.len() as int));
    }
    if exists|rest: Seq<u8>| s == #[trigger] (prefix + rest) {
        let rest = choose|rest: Seq<u8>| s == #[trigger] (prefix + rest);
        assert(s.take(prefix.len() as int) == prefix);
    }
}

/// The path of a file in a directory ends in the name of the file. Unless the name is a path
/// from the root, the path begins with the directory, and nothing but one slash may stand
/// between the two: where the directory is named and does not end in one.
pub proof fn theorem_path_in(directory: Seq<u8>, name: Seq<u8>)
    ensures
        name.len() > 0 && name[0] == 47 ==> path_in(directory, name) == name,
        name.len() == 0 || name[0] != 47 ==> {
            let between = path_in(directory, name).len() - directory.len() - name.len();
            &&& begins_with(path_in(directory, name), directory)
            &&& path_in(directory, name).skip(directory.len() + between) == name
            &&& between == 0 <==> directory.len() == 0 || directory.last() == 47
            &&& between == 0 || between == 1
            &&& between == 1 ==> path_in(directory, name)[directory.len() as int] == 47
        },
{
    let path = path_in(directory, name);
    if name.len() == 0 || name[0] != 47 {
        assert(path.take(directory.len() as int) == directory);
        let between = path.len() - directory.len() - name.len();
        assert(path.skip(directory.len() + between) == name);
    }
}

/// Different texts have different bytes in UTF-8, and decoding the bytes gives the text back.
pub proof fn theorem_utf8(s: Seq<char>)
    ensures
        utf8(s) == vstd::utf8::encode_utf8(s),
        vstd::utf8::valid_utf8(utf8(s)),
        vstd::utf8::decode_utf8(utf8(s)) == s,
{
    vstd::utf8::encode_utf8_valid_utf8(s);
    vstd::utf8::encode_utf8_decode_utf8(s);
}

} // verus!
