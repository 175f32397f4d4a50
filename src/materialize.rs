//! Deciding what a downloaded artifact becomes on disk: one executable, or
//! the entries of a zip archive, chosen by the extension of its name.
use vstd::prelude::*;
use vstd::string::StrSliceExecFns;
use zip::result::ZipError;
use crate::archive::{archive_names, entry_count, entry_name, open_archive, zip_listing, MemArchive};
use crate::text::{eq_fold, eq_ignore_ascii_case};

verus! {

/// The two kinds of artifact that a release provides.
#[derive(Clone, Copy, Debug, PartialEq, Eq, Structural)]
pub enum AssetKind {
    Archive,
    Executable,
}

#[derive(Debug)]
pub enum MaterializeError {
    /// The file name has no extension.
    UnsupportedAsset(String),
    /// The extension is neither that of an archive nor of an executable.
    UnsupportedExtension(String),
    /// The archive could not be read.
    Archive(ZipError),
    /// An entry of the archive would land outside the destination directory.
    EscapingEntry(String),
}

impl MaterializeError {
    pub fn message(&self) -> (r: String)
        ensures
            self matches MaterializeError::UnsupportedAsset(_) ==> r@ == "asset has no extension"@,
            self matches MaterializeError::UnsupportedExtension(e) ==> r@ == "extension "@ + e@
                + " is unsupported"@,
            self matches MaterializeError::Archive(_) ==> r@ == "the archive cannot be read"@,
            self matches MaterializeError::EscapingEntry(n) ==> r@ == "archive entry "@ + n@
                + " leaves the destination directory"@,
    {
        match self {
            MaterializeError::UnsupportedAsset(_) => String::from_str("asset has no extension"),
            MaterializeError::UnsupportedExtension(e) => {
                let mut m = String::from_str("extension ");
                m.append(e.as_str());
                m.append(" is unsupported");
                m
            },
            MaterializeError::Archive(_) => String::from_str("the archive cannot be read"),
            MaterializeError::EscapingEntry(n) => {
                let mut m = String::from_str("archive entry ");
                m.append(n.as_str());
                m.append(" leaves the destination directory");
                m
            },
        }
    }
}

/// Position of the last `.` among the first `n` characters, or -1.
pub open spec fn last_dot_before(s: Seq<char>, n: int) -> int
    decreases n,
{
    if n <= 0 {
        -1
    } else if s[n - 1] == '.' {
        n - 1
    } else {
        last_dot_before(s, n - 1)
    }
}

/// The text after the final `.` of a file name. A name without a `.`, or
/// whose only `.` opens it (a hidden file), has none.
pub open spec fn spec_extension(s: Seq<char>) -> Option<Seq<char>> {
    let k = last_dot_before(s, s.len() as int);
    if k <= 0 {
        None
    } else {
        Some(s.subrange(k + 1, s.len() as int))
    }
}

/// What the extension of a file name makes of it: `zip` an archive, `exe` an
/// executable, compared with ASCII letters folded.
pub open spec fn spec_kind(name: Seq<char>) -> Option<AssetKind> {
    match spec_extension(name) {
        Some(e) => if eq_fold(e, "zip"@) {
            Some(AssetKind::Archive)
        } else if eq_fold(e, "exe"@) {
            Some(AssetKind::Executable)
        } else {
            None
        },
        None => None,
    }
}

/// The extension of a file name: the text after its final `.`.
pub fn extension(name: &str) -> (r: Option<&str>)
    ensures
        r matches Some(e) ==> spec_extension(name@) == Some(e@),
        r is None <==> spec_extension(name@) is None,
{
    let n = name.unicode_len();
    let mut i: usize = 0;
    let mut last: usize = 0;
    let mut found = false;
    while i < n
        invariant
            n == name@.len(),
            i <= n,
            found ==> last == last_dot_before(name@, i as int) && last < i,
            !found ==> last_dot_before(name@, i as int) == -1,
        decreases n - i,
    {
        if name.get_char(i) == '.' {
            last = i;
            found = true;
        }
        i = i + 1;
    }
    if !found || last == 0 {
        None
    } else {
        Some(name.substring_char(last + 1, n))
    }
}

/// Sorts a file name into an archive or an executable by its extension.
pub fn classify(name: &str) -> (r: Result<AssetKind, MaterializeError>)
    ensures
        r matches Ok(k) ==> spec_kind(name@) == Some(k),
        r matches Err(MaterializeError::UnsupportedAsset(n)) ==> n@ == name@
            && spec_extension(name@) is None,
        r matches Err(MaterializeError::UnsupportedExtension(e)) ==> spec_extension(name@) == Some(
            e@,
        ) && spec_kind(name@) is None,
        r matches Err(e) ==> (e is UnsupportedAsset || e is UnsupportedExtension),
        r is Ok <==> spec_kind(name@) is Some,
{
    match extension(name) {
        None => Err(MaterializeError::UnsupportedAsset(String::from_str(name))),
        Some(e) => {
            if eq_ignore_ascii_case(e, "zip") {
                Ok(AssetKind::Archive)
            } else if eq_ignore_ascii_case(e, "exe") {
                Ok(AssetKind::Executable)
            } else {
                Err(MaterializeError::UnsupportedExtension(String::from_str(e)))
            }
        },
    }
}

/// A path separator of either platform.
pub open spec fn is_sep(c: char) -> bool {
    c == '/' || c == '\\'
}

/// A `..` component starts at `i`.
pub open spec fn parent_at(s: Seq<char>, i: int) -> bool {
    &&& 0 <= i
    &&& i + 1 < s.len()
    &&& s[i] == '.'
    &&& s[i + 1] == '.'
    &&& (i == 0 || is_sep(s[i - 1]))
    &&& (i + 2 == s.len() || is_sep(s[i + 2]))
}

/// An entry name that would be written outside the destination directory:
/// a rooted path, a path with a drive prefix, or one with a `..` component.
pub open spec fn escapes(s: Seq<char>) -> bool {
    ||| s.len() > 0 && is_sep(s[0])
    ||| s.len() > 1 && s[1] == ':'
    ||| exists|i: int| #[trigger] parent_at(s, i)
}

fn is_separator(c: char) -> (r: bool)
    ensures
        r == is_sep(c),
{
    c == '/' || c == '\\'
}

/// Whether an archive entry named `name` would land outside the directory it
/// is extracted into.
pub fn escapes_destination(name: &str) -> (r: bool)
    ensures
        r == escapes(name@),
{
    let n = name.unicode_len();
    if n > 0 && is_separator(name.get_char(0)) {
        return true;
    }
    if n > 1 && name.get_char(1) == ':' {
        return true;
    }
    let mut i: usize = 0;
    while i < n
        invariant
            n == name@.len(),
            i <= n,
            forall|k: int| 0 <= k < i ==> !#[trigger] parent_at(name@, k),
        decreases n - i,
    {
        if i + 1 < n && name.get_char(i) == '.' && name.get_char(i + 1) == '.' && (i == 0 || is_separator(
            name.get_char(i - 1),
        )) && (i + 2 == n || is_separator(name.get_char(i + 2))) {
            assert(parent_at(name@, i as int));
            return true;
        }
        i = i + 1;
    }
    assert forall|k: int| !#[trigger] parent_at(name@, k) by {
        if 0 <= k < i {
        }
    }
    false
}

/// The view of a list of names.
pub open spec fn names_view(v: Seq<String>) -> Seq<Seq<char>> {
    v.map_values(|s: String| s@)
}

/// Lists the entries of an archive in directory order, refusing the archive
/// at its first entry that would leave the destination directory.
pub fn list_entries(z: &MemArchive) -> (r: Result<Vec<String>, MaterializeError>)
    ensures
        r matches Ok(v) ==> names_view(v@) == archive_names(*z) && forall|i: int|
            0 <= i < v@.len() ==> !escapes(#[trigger] archive_names(*z)[i]),
        r matches Err(MaterializeError::EscapingEntry(n)) ==> exists|i: int|
            0 <= i < archive_names(*z).len() && #[trigger] archive_names(*z)[i] == n@ && escapes(
                n@,
            ),
        r matches Err(e) ==> (e is EscapingEntry || e is Archive),
        (forall|i: int|
            0 <= i < archive_names(*z).len() ==> !escapes(#[trigger] archive_names(*z)[i]))
            ==> !(r matches Err(MaterializeError::EscapingEntry(_))),
{
    let count = entry_count(z);
    let mut names: Vec<String> = Vec::new();
    let mut i: usize = 0;
    while i < count
        invariant
            count == archive_names(*z).len(),
            i <= count,
            names@.len() == i,
            forall|k: int| 0 <= k < i ==> (#[trigger] names@[k])@ == archive_names(*z)[k],
            forall|k: int| 0 <= k < i ==> !escapes(#[trigger] archive_names(*z)[k]),
        decreases count - i,
    {
        match entry_name(z, i).unwrap() {
            Ok(n) => {
                if escapes_destination(n.as_str()) {
                    return Err(MaterializeError::EscapingEntry(n));
                }
                names.push(n);
            },
            Err(e) => {
                return Err(MaterializeError::Archive(e));
            },
        }
        i = i + 1;
    }
    assert(names_view(names@) =~= archive_names(*z));
    Ok(names)
}

/// What a downloaded artifact becomes once it is known to be sound.
#[derive(Debug)]
pub enum Materialized {
    /// One file, written under `name` with `bytes` as its contents.
    Executable { name: String, bytes: Vec<u8> },
    /// A zip archive, to be extracted; `entries` are its entry names in order.
    Archive { bytes: Vec<u8>, entries: Vec<String> },
}

impl Materialized {
    /// The names of the files that materializing produces.
    pub fn files(&self) -> (r: Vec<String>)
        ensures
            self matches Materialized::Executable { name, .. } ==> names_view(r@) == seq![name@],
            self matches Materialized::Archive { entries, .. } ==> names_view(r@) == names_view(
                entries@,
            ),
    {
        match self {
            Materialized::Executable { name, .. } => {
                let v = vec![name.clone()];
                assert(names_view(v@) =~= seq![name@]);
                v
            },
            Materialized::Archive { entries, .. } => {
                let mut v: Vec<String> = Vec::new();
                let mut i: usize = 0;
                while i < entries.len()
                    invariant
                        i <= entries@.len(),
                        v@.len() == i,
                        forall|k: int| 0 <= k < i ==> (#[trigger] v@[k])@ == entries@[k]@,
                    decreases entries@.len() - i,
                {
                    v.push(entries[i].clone());
                    i = i + 1;
                }
                assert(names_view(v@) =~= names_view(entries@));
                v
            },
        }
    }
}

/// Decides what the artifact `filename` with contents `bytes` becomes: an
/// executable keeps its name and its bytes unchanged; an archive is listed,
/// and refused if an entry would leave the destination directory; any other
/// name is refused before anything is written.
pub fn materialize(filename: &str, bytes: Vec<u8>) -> (r: Result<Materialized, MaterializeError>)
    ensures
        spec_kind(filename@) is None ==> r is Err && !(r matches Err(MaterializeError::Archive(_)))
            && !(r matches Err(MaterializeError::EscapingEntry(_))),
        r matches Err(MaterializeError::UnsupportedAsset(n)) ==> n@ == filename@
            && spec_extension(filename@) is None,
        r matches Err(MaterializeError::UnsupportedExtension(e)) ==> spec_extension(filename@)
            == Some(e@) && spec_kind(filename@) is None,
        spec_kind(filename@) == Some(AssetKind::Executable) ==> (r matches Ok(
            Materialized::Executable { name, bytes: b },
        ) && name@ == filename@ && b@ == bytes@),
        spec_kind(filename@) == Some(AssetKind::Archive) ==> match r {
            Ok(Materialized::Archive { bytes: b, entries }) => b@ == bytes@ && names_view(entries@)
                == zip_listing(bytes@) && forall|i: int|
                0 <= i < entries@.len() ==> !escapes(#[trigger] entries@[i]@),
            Err(MaterializeError::EscapingEntry(n)) => escapes(n@) && exists|i: int|
                0 <= i < zip_listing(bytes@).len() && #[trigger] zip_listing(bytes@)[i] == n@,
            Err(MaterializeError::Archive(_)) => true,
            _ => false,
        },
{
    match classify(filename) {
        Err(e) => Err(e),
        Ok(AssetKind::Executable) => Ok(
            Materialized::Executable { name: String::from_str(filename), bytes },
        ),
        Ok(AssetKind::Archive) => {
            let copy = bytes.clone();
            match open_archive(copy) {
                Err(e) => Err(MaterializeError::Archive(e)),
                Ok(z) => match list_entries(&z) {
                    Ok(entries) => {
                        proof {
                            assert forall|i: int| 0 <= i < entries@.len() implies !escapes(
                                #[trigger] entries@[i]@,
                            ) by {
                                assert(names_view(entries@)[i] == entries@[i]@);
                            }
                        }
                        Ok(Materialized::Archive { bytes, entries })
                    },
                    Err(e) => Err(e),
                },
            }
        },
    }
}

} // verus!
