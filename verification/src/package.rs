//! Reading one story's payload package: a nested ZIP-style package held in
//! memory, whose HTML entries together form the indexable story text.

use std::io::Read;
use vstd::prelude::*;
use crate::error::{Error, ErrorKind};
use crate::text::spec_match_at;

verus! {

#[verifier::external_type_specification]
#[verifier::external_body]
#[verifier::reject_recursive_types(R)]
pub struct ExZipArchive<R>(zip::read::ZipArchive<R>);

#[verifier::external_type_specification]
#[verifier::external_body]
#[verifier::reject_recursive_types(T)]
pub struct ExCursor<T>(std::io::Cursor<T>);

/// A payload package opened over its bytes.
pub type Package = zip::read::ZipArchive<std::io::Cursor<Vec<u8>>>;

/// What a package holds: for each entry, its name and its text — the text
/// is `None` where the entry does not decompress to UTF-8. The package is
/// in memory, so its contents are fixed.
pub uninterp spec fn package_entries(p: Package) -> Seq<(Seq<char>, Option<Seq<char>>)>;

/// Whether some bytes form a readable package. In memory, reading is a
/// function of the bytes alone.
pub uninterp spec fn bytes_readable(data: Seq<u8>) -> bool;

/// The entries that readable bytes decompress to.
pub uninterp spec fn bytes_entries(data: Seq<u8>) -> Seq<(Seq<char>, Option<Seq<char>>)>;

/// Relies on `zip::ZipArchive::new` over an in-memory cursor: opens the
/// package, or fails exactly when the bytes are not a readable package.
#[verifier::external_body]
pub fn open_package(data: Vec<u8>) -> (r: Result<Package, Error>)
    ensures
        r is Ok == bytes_readable(data@),
        r matches Ok(p) ==> package_entries(p) == bytes_entries(data@),
        r matches Err(e) ==> e.kind == ErrorKind::ArchiveError,
{
    match zip::read::ZipArchive::new(std::io::Cursor::new(data)) {
        Ok(package) => Ok(package),
        Err(_) => Err(Error::archive("Could not open story data")),
    }
}

/// Relies on `zip::ZipArchive::len`: the number of entries.
#[verifier::external_body]
pub fn package_len(p: &Package) -> (r: usize)
    ensures
        r == package_entries(*p).len(),
{
    p.len()
}

/// Relies on `zip::ZipArchive::name_for_index`: the name of the entry at
/// `i`, read from the package's central directory without opening the
/// entry, so it is there for every entry the directory lists.
#[verifier::external_body]
pub fn entry_name_at(p: &Package, i: usize) -> (r: Option<String>)
    ensures
        match r {
            Some(n) => i < package_entries(*p).len() && n@ == package_entries(*p)[i as int].0,
            None => i >= package_entries(*p).len(),
        },
{
    p.name_for_index(i).map(|name| name.to_owned())
}

/// Relies on `zip::ZipArchive::by_index` and `std::io::Read::read_to_string`:
/// the text of the entry at `i`, or `None` where it does not decompress to
/// UTF-8 text.
#[verifier::external_body]
pub fn entry_text_at(p: &mut Package, i: usize) -> (r: Option<String>)
    ensures
        package_entries(*final(p)) == package_entries(*old(p)),
        i < package_entries(*old(p)).len() ==> match (
            r,
            package_entries(*old(p))[i as int].1,
        ) {
            (Some(s), Some(v)) => s@ == v,
            (None, None) => true,
            _ => false,
        },
        i >= package_entries(*old(p)).len() ==> r is None,
{
    let mut text = String::new();
    match p.by_index(i) {
        Ok(mut file) => match file.read_to_string(&mut text) {
            Ok(_) => Some(text),
            Err(_) => None,
        },
        Err(_) => None,
    }
}

/// Whether an entry name ends in `.html`.
pub open spec fn is_html_name(name: Seq<char>) -> bool {
    spec_match_at(name, name.len() - ".html"@.len(), ".html"@)
}

/// Tests an entry name for the `.html` suffix.
pub fn html_name(name: &str) -> (r: bool)
    ensures
        r == is_html_name(name@),
{
    let chars = crate::text::chars_of(name);
    let suffix_len = ".html".unicode_len();
    if chars.len() < suffix_len {
        return false;
    }
    crate::text::match_at(&chars, chars.len() - suffix_len, ".html")
}

/// The concatenation of the texts of the HTML entries from `i` on, skipping
/// any entry whose text did not decode.
pub open spec fn spec_html_text(entries: Seq<(Seq<char>, Option<Seq<char>>)>, i: int) -> Seq<char>
    decreases entries.len() - i,
{
    if 0 <= i < entries.len() {
        let head = if is_html_name(entries[i].0) && entries[i].1 is Some {
            entries[i].1->0
        } else {
            Seq::empty()
        };
        head + spec_html_text(entries, i + 1)
    } else {
        Seq::empty()
    }
}

/// Collects the text of every `.html` entry of a package, in entry order;
/// an entry that does not decode as UTF-8 is skipped and the rest still
/// contribute.
#[verifier::loop_isolation(false)]
pub fn html_text(p: &mut Package) -> (r: String)
    ensures
        package_entries(*final(p)) == package_entries(*old(p)),
        r@ == spec_html_text(package_entries(*old(p)), 0),
{
    let ghost entries = package_entries(*p);
    let n = package_len(p);
    let mut out = String::new();
    let mut i: usize = 0;
    while i < n
        invariant
            i <= n,
            n == entries.len(),
            package_entries(*p) == entries,
            spec_html_text(entries, 0) == out@ + spec_html_text(entries, i as int),
        decreases n - i,
    {
        let name = match entry_name_at(p, i) {
            Some(name) => name,
            None => {
                // unreachable: `i` is within the entry count
                String::new()
            },
        };
        if html_name(name.as_str()) {
            match entry_text_at(p, i) {
                Some(text) => {
                    out.append(text.as_str());
                },
                None => {
                },
            }
        }
        i = i + 1;
    }
    out
}

} // verus!
