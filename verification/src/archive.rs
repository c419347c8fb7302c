//! Taking the executable out of the archive that a release ships it in.
use vstd::prelude::*;

use crate::error::ExtractError;
use crate::text;
use crate::text::{decode_lossy, decode_strict, eq_ignore_case, last_segment, replace_all};

verus! {

/// `zip::ZipArchive`: the entries of a zip archive, and the reader of its bytes.
#[verifier::external_type_specification]
#[verifier::external_body]
#[verifier::reject_recursive_types(R)]
pub struct ExZipArchive<R>(zip::ZipArchive<R>);

/// `std::io::Cursor`: bytes in memory that are read like a file.
#[verifier::external_type_specification]
#[verifier::external_body]
#[verifier::reject_recursive_types(T)]
pub struct ExCursor<T>(std::io::Cursor<T>);

/// The entries of an open zip archive, in the order of its directory: the name
/// of each where its header can be found, and its content. The content is what
/// can be read of it and, where it is damaged, the message of the error that the
/// reading ends with; or the message of the error with which the entry cannot be
/// opened.
pub uninterp spec fn zip_entries(archive: zip::ZipArchive<std::io::Cursor<&[u8]>>) -> Seq<
    (Option<Seq<char>>, Result<(Seq<u8>, Option<Seq<char>>), Seq<char>>),
>;

/// The entries that `zip::ZipArchive::new` finds in `bytes`; or the message of its
/// error, where they are no zip archive.
pub uninterp spec fn zip_directory(bytes: Seq<u8>) -> Result<
    Seq<(Option<Seq<char>>, Result<(Seq<u8>, Option<Seq<char>>), Seq<char>>)>,
    Seq<char>,
>;

/// `zip::ZipArchive::new` on bytes in memory, with the message of its error as
/// `anyhow` writes it.
#[verifier::external_body]
fn zip_open(bytes: &[u8]) -> (r: Result<zip::ZipArchive<std::io::Cursor<&[u8]>>, String>)
    ensures
        r is Ok <==> zip_directory(bytes@) is Ok,
        r matches Ok(archive) ==> zip_directory(bytes@)->Ok_0 == zip_entries(archive),
        r matches Err(m) ==> zip_directory(bytes@)->Err_0 == m@,
{
    zip::ZipArchive::new(std::io::Cursor::new(bytes)).map_err(
        |e| format!("{:#}", anyhow::Error::new(e)),
    )
}

/// `zip::ZipArchive::len`: how many entries there are.
#[verifier::external_body]
fn zip_len(archive: &zip::ZipArchive<std::io::Cursor<&[u8]>>) -> (r: usize)
    ensures
        r == zip_entries(*archive).len(),
{
    archive.len()
}

/// `zip::ZipArchive::by_index_raw`, and the name of the entry that it finds, if it
/// does. The entries stay as they are.
#[verifier::external_body]
fn zip_name(archive: &mut zip::ZipArchive<std::io::Cursor<&[u8]>>, index: usize) -> (r: Option<
    String,
>)
    requires
        index < zip_entries(*old(archive)).len(),
    ensures
        zip_entries(*final(archive)) == zip_entries(*old(archive)),
        text::text_of(r) == zip_entries(*old(archive))[index as int].0,
{
    archive.by_index_raw(index).ok().map(|file| file.name().to_string())
}

/// The views of what was read of an entry, and of the error that the reading ended
/// with.
pub open spec fn read_view(read: (Vec<u8>, Option<String>)) -> (Seq<u8>, Option<Seq<char>>) {
    (read.0@, text::text_of(read.1))
}

/// `zip::ZipArchive::by_index`, and what `std::io::copy` reads from the entry that
/// it opens, up to its end or to an error. Of the errors the messages are given,
/// as `anyhow` writes them. The entries stay as they are.
#[verifier::external_body]
fn zip_read(archive: &mut zip::ZipArchive<std::io::Cursor<&[u8]>>, index: usize) -> (r: Result<
    (Vec<u8>, Option<String>),
    String,
>)
    requires
        index < zip_entries(*old(archive)).len(),
    ensures
        zip_entries(*final(archive)) == zip_entries(*old(archive)),
        r is Ok <==> zip_entries(*old(archive))[index as int].1 is Ok,
        r matches Ok(read) ==> zip_entries(*old(archive))[index as int].1->Ok_0 == read_view(read),
        r matches Err(m) ==> zip_entries(*old(archive))[index as int].1->Err_0 == m@,
{
    let mut file = archive.by_index(index).map_err(|e| format!("{:#}", anyhow::Error::new(e)))?;
    let mut out = std::io::Cursor::new(Vec::new());
    let fault = std::io::copy(&mut file, &mut out).err();
    Ok((out.into_inner(), fault.map(|e| format!("{:#}", anyhow::Error::new(e)))))
}

/// `name` with slashes for backslashes.
pub open spec fn slashed(name: Seq<char>) -> Seq<char> {
    text::replaced(name, "\\"@, "/"@)
}

/// Whether the entry `name` of a zip archive is the wanted one, by the last part
/// of its path or by all of it, up to the case of letters.
pub open spec fn zip_name_matches(name: Seq<char>, wanted: Seq<char>) -> bool {
    text::same_ignoring_case(text::last_segment_of(slashed(name), '/'), wanted)
        || text::same_ignoring_case(name, wanted)
}

/// Whether the entry `path` of a tar archive is the wanted one, by the last part
/// of its path or by all of it, up to the case of letters. Backslashes are taken
/// for slashes in both.
pub open spec fn tar_path_matches(path: Seq<char>, wanted: Seq<char>) -> bool {
    text::same_ignoring_case(text::last_segment_of(slashed(path), '/'), wanted)
        || text::same_ignoring_case(slashed(path), wanted)
}

/// Whether the entry `name` of a zip archive is the wanted one.
pub fn is_wanted_in_zip(name: &str, wanted: &str) -> (r: bool)
    ensures
        r == zip_name_matches(name@, wanted@),
{
    let path: String = replace_all(name, "\\", "/");
    eq_ignore_case(last_segment(path.as_str(), '/').as_str(), wanted) || eq_ignore_case(
        name,
        wanted,
    )
}

/// Whether the entry `path` of a tar archive is the wanted one.
pub fn is_wanted_in_tar(path: &str, wanted: &str) -> (r: bool)
    ensures
        r == tar_path_matches(path@, wanted@),
{
    let path: String = replace_all(path, "\\", "/");
    eq_ignore_case(last_segment(path.as_str(), '/').as_str(), wanted) || eq_ignore_case(
        path.as_str(),
        wanted,
    )
}

/// The names of zip entries, `None` for those that cannot be found.
pub open spec fn opt_texts(names: Seq<Option<String>>) -> Seq<Option<Seq<char>>> {
    names.map_values(|n: Option<String>| text::text_of(n))
}

/// The entry has a name, and it is the wanted one.
pub open spec fn wanted_entry(name: Option<Seq<char>>, wanted: Seq<char>) -> bool {
    name is Some && zip_name_matches(name->0, wanted)
}

/// `names[i]` is the first of the names that is the wanted one.
pub open spec fn first_wanted(names: Seq<Option<Seq<char>>>, wanted: Seq<char>, i: int) -> bool {
    &&& 0 <= i < names.len()
    &&& wanted_entry(names[i], wanted)
    &&& forall|j: int| 0 <= j < i ==> !wanted_entry(#[trigger] names[j], wanted)
}

/// None of the names is the wanted one.
pub open spec fn none_wanted(names: Seq<Option<Seq<char>>>, wanted: Seq<char>) -> bool {
    forall|j: int| 0 <= j < names.len() ==> !wanted_entry(#[trigger] names[j], wanted)
}

/// The position of the first zip entry that is the wanted one.
pub fn find_in_zip(names: &Vec<Option<String>>, wanted: &str) -> (r: Option<usize>)
    ensures
        match r {
            Some(i) => first_wanted(opt_texts(names@), wanted@, i as int),
            None => none_wanted(opt_texts(names@), wanted@),
        },
{
    let mut i: usize = 0;
    while i < names.len()
        invariant
            i <= names@.len(),
            forall|j: int|
                0 <= j < i ==> !wanted_entry(#[trigger] opt_texts(names@)[j], wanted@),
        decreases names@.len() - i,
    {
        assert(opt_texts(names@)[i as int] == text::text_of(names@[i as int]));
        match &names[i] {
            Some(name) => {
                if is_wanted_in_zip(name.as_str(), wanted) {
                    return Some(i);
                }
            },
            None => {},
        }
        i = i + 1;
    }
    None
}

/// The names of the entries of a zip archive.
pub open spec fn entry_names(
    entries: Seq<(Option<Seq<char>>, Result<(Seq<u8>, Option<Seq<char>>), Seq<char>>)>,
) -> Seq<Option<Seq<char>>> {
    entries.map_values(|e: (Option<Seq<char>>, Result<(Seq<u8>, Option<Seq<char>>), Seq<char>>)| e.0)
}

/// What an archive holds in an entry.
#[derive(Debug)]
pub enum Content {
    /// All of the content.
    Whole(Vec<u8>),
    /// What could be read of the content, which is damaged, and why no more.
    Damaged { read: Vec<u8>, cause: String },
}

/// Only one name is the first wanted one.
proof fn one_is_first(names: Seq<Option<Seq<char>>>, wanted: Seq<char>, i: int, j: int)
    requires
        first_wanted(names, wanted, i),
        first_wanted(names, wanted, j),
    ensures
        i == j,
{
    assert(wanted_entry(names[i], wanted) && wanted_entry(names[j], wanted));
}

/// The position of the first entry of an open zip archive that is the wanted
/// one. The archive stays as it is.
fn locate_in_zip(
    archive: &mut zip::ZipArchive<std::io::Cursor<&[u8]>>,
    entry_name: &str,
) -> (r: Option<usize>)
    ensures
        zip_entries(*final(archive)) == zip_entries(*old(archive)),
        match r {
            Some(i) => first_wanted(
                entry_names(zip_entries(*old(archive))),
                entry_name@,
                i as int,
            ),
            None => none_wanted(entry_names(zip_entries(*old(archive))), entry_name@),
        },
{
    let ghost entries = zip_entries(*archive);
    let count: usize = zip_len(archive);
    let mut names: Vec<Option<String>> = Vec::new();
    let mut i: usize = 0;
    while i < count
        invariant
            i <= count,
            count == entries.len(),
            zip_entries(*archive) == entries,
            opt_texts(names@) == entry_names(entries).take(i as int),
        decreases count - i,
    {
        let ghost before = names@;
        let name: Option<String> = zip_name(archive, i);
        names.push(name);
        assert(opt_texts(names@) =~= opt_texts(before).push(text::text_of(name)));
        assert(entry_names(entries).take(i + 1) =~= entry_names(entries).take(i as int).push(
            entries[i as int].0,
        ));
        i = i + 1;
    }
    assert(entry_names(entries).take(i as int) =~= entry_names(entries));
    find_in_zip(&names, entry_name)
}

/// What comes of looking for an entry in an archive: its content, or what can be
/// read of it and why no more, or what the error tells.
pub enum Extracted {
    Whole(Seq<u8>),
    Damaged { read: Seq<u8>, cause: Seq<char> },
    Failed(Seq<Seq<char>>),
}

/// What came of looking for an entry.
pub open spec fn outcome(r: Result<Content, ExtractError>) -> Extracted {
    match r {
        Ok(Content::Whole(content)) => Extracted::Whole(content@),
        Ok(Content::Damaged { read, cause }) => Extracted::Damaged { read: read@, cause: cause@ },
        Err(e) => Extracted::Failed(e.told()),
    }
}

/// What comes of reading an entry to its end, or to an error.
pub open spec fn read_outcome(read: (Seq<u8>, Option<Seq<char>>)) -> Extracted {
    match read.1 {
        None => Extracted::Whole(read.0),
        Some(cause) => Extracted::Damaged { read: read.0, cause },
    }
}

/// What comes of looking for the wanted entry in a zip archive.
pub open spec fn unzipped(bytes: Seq<u8>, wanted: Seq<char>) -> Extracted {
    match zip_directory(bytes) {
        Err(cause) => Extracted::Failed(seq!["opening zip"@, cause]),
        Ok(entries) => if none_wanted(entry_names(entries), wanted) {
            Extracted::Failed(seq!["'"@ + wanted + "' not found in zip"@])
        } else {
            match entries[choose|i: int| first_wanted(entry_names(entries), wanted, i)].1 {
                Err(cause) => Extracted::Failed(seq!["reading zip entry"@, cause]),
                Ok(read) => read_outcome(read),
            }
        },
    }
}

/// The content that was read.
fn content_of(read: (Vec<u8>, Option<String>)) -> (r: Content)
    ensures
        outcome(Ok(r)) == read_outcome(read_view(read)),
{
    match read.1 {
        None => Content::Whole(read.0),
        Some(cause) => Content::Damaged { read: read.0, cause },
    }
}

/// The first entry that is the wanted one holds `content`.
pub open spec fn zip_holds(
    entries: Seq<(Option<Seq<char>>, Result<(Seq<u8>, Option<Seq<char>>), Seq<char>>)>,
    wanted: Seq<char>,
    content: Result<(Seq<u8>, Option<Seq<char>>), Seq<char>>,
) -> bool {
    exists|i: int| #[trigger]
        first_wanted(entry_names(entries), wanted, i) && entries[i].1 == content
}

/// The content of the wanted entry of a zip archive: the first one that has the
/// wanted name.
pub fn extract_entry(zip_bytes: &[u8], entry_name: &str) -> (r: Result<Content, ExtractError>)
    ensures
        match zip_directory(zip_bytes@) {
            Err(told) => r matches Err(ExtractError::OpenZip { cause }) && cause@ == told,
            Ok(entries) => match r {
                Ok(Content::Whole(content)) => zip_holds(
                    entries,
                    entry_name@,
                    Ok((content@, None)),
                ),
                Ok(Content::Damaged { read, cause }) => zip_holds(
                    entries,
                    entry_name@,
                    Ok((read@, Some(cause@))),
                ),
                Err(ExtractError::ReadZipEntry { cause }) => zip_holds(
                    entries,
                    entry_name@,
                    Err(cause@),
                ),
                Err(ExtractError::NotInZip { entry }) => entry@ == entry_name@ && none_wanted(
                    entry_names(entries),
                    entry_name@,
                ),
                Err(_) => false,
            },
        },
        outcome(r) == unzipped(zip_bytes@, entry_name@),
{
    let mut archive = match zip_open(zip_bytes) {
        Ok(archive) => archive,
        Err(cause) => {
            return Err(ExtractError::OpenZip { cause });
        },
    };
    let ghost entries = zip_entries(archive);
    match locate_in_zip(&mut archive, entry_name) {
        Some(index) => {
            assert(zip_holds(entries, entry_name@, entries[index as int].1));
            assert(!none_wanted(entry_names(entries), entry_name@)) by {
                assert(wanted_entry(entry_names(entries)[index as int], entry_name@));
            }
            proof {
                let i = choose|i: int| first_wanted(entry_names(entries), entry_name@, i);
                one_is_first(entry_names(entries), entry_name@, index as int, i);
            }
            match zip_read(&mut archive, index) {
                Ok(read) => Ok(content_of(read)),
                Err(cause) => Err(ExtractError::ReadZipEntry { cause }),
            }
        },
        None => Err(ExtractError::NotInZip { entry: entry_name.to_string() }),
    }
}

/// The entries of the gzipped tar archive `bytes`, in order: the bytes of the
/// path of each, or the message of the error for one that cannot be read; or the
/// message of the error with which `tar::Archive::entries` refuses.
pub uninterp spec fn tar_gz_listing(bytes: Seq<u8>) -> Result<
    Seq<Result<Seq<u8>, Seq<char>>>,
    Seq<char>,
>;

/// The views of the paths of tar entries.
pub open spec fn listing_view(listing: Seq<Result<Vec<u8>, String>>) -> Seq<
    Result<Seq<u8>, Seq<char>>,
> {
    listing.map_values(
        |e: Result<Vec<u8>, String>|
            match e {
                Ok(path) => Ok(path@),
                Err(m) => Err(m@),
            },
    )
}

/// `tar::Archive::entries` on what `flate2::read::GzDecoder` unpacks, with the
/// result of `Entry::path_bytes` for each entry. Of the errors the messages are
/// given, as `anyhow` writes them.
#[verifier::external_body]
fn tar_gz_paths(bytes: &[u8]) -> (r: Result<Vec<Result<Vec<u8>, String>>, String>)
    ensures
        r is Ok <==> tar_gz_listing(bytes@) is Ok,
        r matches Ok(paths) ==> tar_gz_listing(bytes@)->Ok_0 == listing_view(paths@),
        r matches Err(m) ==> tar_gz_listing(bytes@)->Err_0 == m@,
{
    let unpacked = flate2::read::GzDecoder::new(std::io::Cursor::new(bytes));
    let mut archive = tar::Archive::new(unpacked);
    let entries = archive.entries().map_err(|e| format!("{:#}", anyhow::Error::new(e)))?;
    let paths = entries.map(|entry| entry.map(|e| e.path_bytes().into_owned()));
    Ok(paths.map(|path| path.map_err(|e| format!("{:#}", anyhow::Error::new(e)))).collect())
}

/// What can be read of the entry at `index` of the gzipped tar archive `bytes` and,
/// where it is damaged, the message of the error that the reading ends with.
pub uninterp spec fn tar_gz_content(bytes: Seq<u8>, index: nat) -> (Seq<u8>, Option<Seq<char>>);

/// What `std::io::copy` reads from the entry at `index` among
/// `tar::Archive::entries` on what `flate2::read::GzDecoder` unpacks, up to its end
/// or to an error. Of the error the message is given, as `anyhow` writes it.
#[verifier::external_body]
fn tar_gz_read(bytes: &[u8], index: usize) -> (r: (Vec<u8>, Option<String>))
    requires
        tar_gz_listing(bytes@) is Ok,
        index < tar_gz_listing(bytes@)->Ok_0.len(),
        tar_gz_listing(bytes@)->Ok_0[index as int] is Ok,
    ensures
        read_view(r) == tar_gz_content(bytes@, index as nat),
{
    let unpacked = flate2::read::GzDecoder::new(std::io::Cursor::new(bytes));
    let mut archive = tar::Archive::new(unpacked);
    let mut entry = archive.entries().unwrap().nth(index).unwrap().unwrap();
    let mut out = std::io::Cursor::new(Vec::new());
    let fault = std::io::copy(&mut entry, &mut out).err();
    (out.into_inner(), fault.map(|e| format!("{:#}", anyhow::Error::new(e))))
}

/// The path of a tar entry, from its bytes. Windows takes only those that are
/// UTF-8.
pub open spec fn path_text(bytes: Seq<u8>, windows: bool) -> Option<Seq<char>> {
    if !windows {
        Some(text::lossy_text(bytes))
    } else if vstd::utf8::valid_utf8(bytes) {
        Some(vstd::utf8::decode_utf8(bytes))
    } else {
        None
    }
}

/// The path of a tar entry, from its bytes.
fn decode_path(bytes: &[u8], windows: bool) -> (r: Option<String>)
    ensures
        text::text_of(r) == path_text(bytes@, windows),
{
    if windows {
        decode_strict(bytes)
    } else {
        Some(decode_lossy(bytes))
    }
}

/// What the search through a tar archive comes upon.
pub enum Found {
    /// The entry is damaged.
    Damaged,
    /// The entry has a path that this machine cannot have.
    BadPath,
    /// The entry is the wanted one.
    Wanted,
    /// The entry is another one.
    Other,
}

/// What the search comes upon at one entry.
pub open spec fn found_at(
    path: Result<Seq<u8>, Seq<char>>,
    wanted: Seq<char>,
    windows: bool,
) -> Found {
    match path {
        Err(_) => Found::Damaged,
        Ok(bytes) => match path_text(bytes, windows) {
            None => Found::BadPath,
            Some(p) => if tar_path_matches(p, wanted) {
                Found::Wanted
            } else {
                Found::Other
            },
        },
    }
}

/// The search stops at entry `i`: all before it are other ones.
pub open spec fn stops_at(
    listing: Seq<Result<Seq<u8>, Seq<char>>>,
    wanted: Seq<char>,
    windows: bool,
    i: int,
) -> bool {
    &&& 0 <= i < listing.len()
    &&& found_at(listing[i], wanted, windows) != Found::Other
    &&& forall|j: int|
        0 <= j < i ==> found_at(#[trigger] listing[j], wanted, windows) == Found::Other
}

/// The position of the wanted entry among the paths of a tar archive, which are
/// searched up to the first one that is damaged.
pub fn find_in_tar(
    paths: Vec<Result<Vec<u8>, String>>,
    wanted: &str,
    windows: bool,
) -> (r: Result<usize, ExtractError>)
    ensures
        match r {
            Ok(i) => stops_at(listing_view(paths@), wanted@, windows, i as int) && found_at(
                listing_view(paths@)[i as int],
                wanted@,
                windows,
            ) == Found::Wanted,
            Err(ExtractError::ReadTarEntry { cause }) => exists|i: int|
                #[trigger] stops_at(listing_view(paths@), wanted@, windows, i) && found_at(
                    listing_view(paths@)[i],
                    wanted@,
                    windows,
                ) == Found::Damaged && cause@ == listing_view(paths@)[i]->Err_0,
            Err(ExtractError::ReadTarEntryPath { path }) => exists|i: int|
                #[trigger] stops_at(listing_view(paths@), wanted@, windows, i) && found_at(
                    listing_view(paths@)[i],
                    wanted@,
                    windows,
                ) == Found::BadPath && path@ == text::lossy_text(listing_view(paths@)[i]->Ok_0),
            Err(ExtractError::NotInTarGz { entry }) => entry@ == wanted@ && forall|j: int|
                0 <= j < paths@.len() ==> found_at(
                    #[trigger] listing_view(paths@)[j],
                    wanted@,
                    windows,
                ) == Found::Other,
            Err(_) => false,
        },
{
    let ghost listing = listing_view(paths@);
    let mut rest = paths;
    let mut i: usize = 0;
    while i < rest.len()
        invariant
            i <= paths@.len(),
            rest@ == paths@,
            listing == listing_view(paths@),
            forall|j: int|
                0 <= j < i ==> found_at(#[trigger] listing[j], wanted@, windows) == Found::Other,
        decreases paths@.len() - i,
    {
        match &rest[i] {
            Ok(bytes) => {
                assert(listing[i as int] == Ok::<Seq<u8>, Seq<char>>(bytes@));
                match decode_path(bytes.as_slice(), windows) {
                    Some(path) => {
                        if is_wanted_in_tar(path.as_str(), wanted) {
                            return Ok(i);
                        }
                    },
                    None => {
                        assert(stops_at(listing, wanted@, windows, i as int));
                        return Err(
                            ExtractError::ReadTarEntryPath { path: decode_lossy(bytes.as_slice()) },
                        );
                    },
                }
            },
            Err(_) => {
                assert(listing[i as int] is Err);
                assert(stops_at(listing, wanted@, windows, i as int));
                match rest.swap_remove(i) {
                    Err(cause) => {
                        return Err(ExtractError::ReadTarEntry { cause });
                    },
                    Ok(_) => {
                        assert(false);
                    },
                }
            },
        }
        i = i + 1;
    }
    Err(ExtractError::NotInTarGz { entry: wanted.to_string() })
}

/// The search through a gzipped tar archive with this listing comes upon the
/// wanted entry, which holds `content`.
pub open spec fn tar_holds(
    bytes: Seq<u8>,
    listing: Seq<Result<Seq<u8>, Seq<char>>>,
    wanted: Seq<char>,
    windows: bool,
    content: (Seq<u8>, Option<Seq<char>>),
) -> bool {
    exists|i: int|
        {
            &&& #[trigger] stops_at(listing, wanted, windows, i)
            &&& found_at(listing[i], wanted, windows) == Found::Wanted
            &&& tar_gz_content(bytes, i as nat) == content
        }
}

/// What comes of looking for the wanted entry in a gzipped tar archive.
pub open spec fn untarred(bytes: Seq<u8>, wanted: Seq<char>, windows: bool) -> Extracted {
    match tar_gz_listing(bytes) {
        Err(cause) => Extracted::Failed(seq!["reading tar entries"@, cause]),
        Ok(listing) => if exists|i: int| stops_at(listing, wanted, windows, i) {
            let i = choose|i: int| stops_at(listing, wanted, windows, i);
            match found_at(listing[i], wanted, windows) {
                Found::Damaged => Extracted::Failed(
                    seq!["reading tar entry"@, listing[i]->Err_0],
                ),
                Found::BadPath => Extracted::Failed(
                    seq![
                        "reading tar entry path"@,
                        "only Unicode paths are supported on Windows: "@ + text::lossy_text(
                            listing[i]->Ok_0,
                        ),
                    ],
                ),
                _ => read_outcome(tar_gz_content(bytes, i as nat)),
            }
        } else {
            Extracted::Failed(seq!["'"@ + wanted + "' not found in tar.gz"@])
        },
    }
}

/// The search stops at one entry only.
proof fn one_stop(listing: Seq<Result<Seq<u8>, Seq<char>>>, wanted: Seq<char>, windows: bool)
    ensures
        forall|i: int, j: int|
            #[trigger] stops_at(listing, wanted, windows, i) && #[trigger] stops_at(
                listing,
                wanted,
                windows,
                j,
            ) ==> i == j,
{
    assert forall|i: int, j: int|
        #[trigger] stops_at(listing, wanted, windows, i) && #[trigger] stops_at(
            listing,
            wanted,
            windows,
            j,
        ) implies i == j by {
        assert(found_at(listing[i], wanted, windows) != Found::Other);
        assert(found_at(listing[j], wanted, windows) != Found::Other);
    }
}

/// The content of the wanted entry of a gzipped tar archive.
pub fn extract_tar_gz(tar_gz_bytes: &[u8], entry_name: &str, windows: bool) -> (r: Result<
    Content,
    ExtractError,
>)
    ensures
        match tar_gz_listing(tar_gz_bytes@) {
            Err(told) => r matches Err(ExtractError::ReadTarEntries { cause }) && cause@ == told,
            Ok(listing) => match r {
                Ok(Content::Whole(content)) => tar_holds(
                    tar_gz_bytes@,
                    listing,
                    entry_name@,
                    windows,
                    (content@, None),
                ),
                Ok(Content::Damaged { read, cause }) => tar_holds(
                    tar_gz_bytes@,
                    listing,
                    entry_name@,
                    windows,
                    (read@, Some(cause@)),
                ),
                Err(ExtractError::ReadTarEntry { cause }) => exists|i: int|
                    #[trigger] stops_at(listing, entry_name@, windows, i) && found_at(
                        listing[i],
                        entry_name@,
                        windows,
                    ) == Found::Damaged && cause@ == listing[i]->Err_0,
                Err(ExtractError::ReadTarEntryPath { path }) => exists|i: int|
                    #[trigger] stops_at(listing, entry_name@, windows, i) && found_at(
                        listing[i],
                        entry_name@,
                        windows,
                    ) == Found::BadPath && path@ == text::lossy_text(listing[i]->Ok_0),
                Err(ExtractError::NotInTarGz { entry }) => entry@ == entry_name@ && forall|j: int|
                    0 <= j < listing.len() ==> found_at(#[trigger] listing[j], entry_name@, windows)
                        == Found::Other,
                Err(_) => false,
            },
        },
        outcome(r) == untarred(tar_gz_bytes@, entry_name@, windows),
{
    proof {
        if let Ok(listing) = tar_gz_listing(tar_gz_bytes@) {
            one_stop(listing, entry_name@, windows);
        }
    }
    match tar_gz_paths(tar_gz_bytes) {
        Err(cause) => Err(ExtractError::ReadTarEntries { cause }),
        Ok(paths) => match find_in_tar(paths, entry_name, windows) {
            Err(e) => Err(e),
            Ok(index) => {
                assert(tar_holds(
                    tar_gz_bytes@,
                    tar_gz_listing(tar_gz_bytes@)->Ok_0,
                    entry_name@,
                    windows,
                    tar_gz_content(tar_gz_bytes@, index as nat),
                ));
                Ok(content_of(tar_gz_read(tar_gz_bytes, index)))
            },
        },
    }
}

/// Whether an entry is the wanted one does not depend on the case in which the
/// wanted name is written.
pub proof fn matching_ignores_case(name: Seq<char>, wanted: Seq<char>, other: Seq<char>)
    requires
        text::same_ignoring_case(wanted, other),
    ensures
        zip_name_matches(name, wanted) == zip_name_matches(name, other),
        tar_path_matches(name, wanted) == tar_path_matches(name, other),
{
    let base = text::last_segment_of(slashed(name), '/');
    same_case_carries(base, wanted, other);
    same_case_carries(name, wanted, other);
    same_case_carries(slashed(name), wanted, other);
}

proof fn same_case_carries(s: Seq<char>, wanted: Seq<char>, other: Seq<char>)
    requires
        text::same_ignoring_case(wanted, other),
    ensures
        text::same_ignoring_case(s, wanted) == text::same_ignoring_case(s, other),
{
    if text::same_ignoring_case(s, wanted) {
        assert forall|i: int| 0 <= i < s.len() implies text::case_code(#[trigger] s[i])
            == text::case_code(other[i]) by {
            assert(text::case_code(wanted[i]) == text::case_code(other[i]));
        }
    }
    if text::same_ignoring_case(s, other) {
        assert forall|i: int| 0 <= i < s.len() implies text::case_code(#[trigger] s[i])
            == text::case_code(wanted[i]) by {
            assert(text::case_code(wanted[i]) == text::case_code(other[i]));
        }
    }
}

/// A file name: it holds no slash and no backslash.
pub open spec fn plain_file_name(s: Seq<char>) -> bool {
    forall|i: int| 0 <= i < s.len() ==> #[trigger] s[i] != '/' && s[i] != '\\'
}

/// A file is found by its name in whatever folder of the archive it stands, with
/// either separator in the path.
pub proof fn any_folder_matches(folder: Seq<char>, separator: char, file: Seq<char>)
    requires
        plain_file_name(file),
        separator == '/' || separator == '\\',
    ensures
        zip_name_matches(folder.push(separator) + file, file),
        tar_path_matches(folder.push(separator) + file, file),
{
    let path = folder.push(separator) + file;
    slashed_by_characters(path);
    slashed_by_characters(folder);
    assert(slashed(path) =~= slashed(folder).push('/') + file);
    segment_after(slashed(folder), file);
}

/// A file at the top of the archive is found by its name.
pub proof fn top_level_matches(file: Seq<char>)
    requires
        plain_file_name(file),
    ensures
        zip_name_matches(file, file),
        tar_path_matches(file, file),
{
    slashed_by_characters(file);
    assert(slashed(file) =~= file);
}

proof fn slashed_by_characters(s: Seq<char>)
    ensures
        slashed(s).len() == s.len(),
        forall|i: int|
            0 <= i < s.len() ==> #[trigger] slashed(s)[i] == (if s[i] == '\\' {
                '/'
            } else {
                s[i]
            }),
    decreases s.len(),
{
    reveal_strlit("\\");
    reveal_strlit("/");
    if s.len() > 0 {
        slashed_by_characters(s.skip(1));
        assert(text::occurs_at(s, "\\"@, 0) <==> s[0] == '\\') by {
            assert(s.subrange(0, 1).len() == 1 && s.subrange(0, 1)[0] == s[0]);
            if s[0] == '\\' {
                assert(s.subrange(0, 1) =~= "\\"@);
            }
        }
        let first = if s[0] == '\\' {
            '/'
        } else {
            s[0]
        };
        assert(slashed(s) =~= seq![first] + slashed(s.skip(1)));
        assert forall|i: int| 0 <= i < s.len() implies #[trigger] slashed(s)[i] == (if s[i]
            == '\\' {
            '/'
        } else {
            s[i]
        }) by {
            if i > 0 {
                assert(s.skip(1)[i - 1] == s[i]);
                assert(slashed(s)[i] == slashed(s.skip(1))[i - 1]);
            }
        }
    }
}

proof fn segment_after(folder: Seq<char>, file: Seq<char>)
    requires
        forall|i: int| 0 <= i < file.len() ==> #[trigger] file[i] != '/',
    ensures
        text::last_segment_of(folder.push('/') + file, '/') == file,
    decreases file.len(),
{
    let s = folder.push('/') + file;
    if file.len() == 0 {
        assert(s.last() == '/');
    } else {
        segment_after(folder, file.drop_last());
        assert(s.drop_last() =~= folder.push('/') + file.drop_last());
        assert(s.last() == file.last());
        assert(file.drop_last().push(file.last()) =~= file);
    }
}

/// An entry is the wanted one exactly where the part of its path behind the last
/// slash or backslash is the wanted name, or all of its path is, up to the case of
/// letters. In a tar archive the whole path is compared with slashes in it.
pub proof fn entries_match_by_name_or_path(
    folder: Seq<char>,
    separator: char,
    file: Seq<char>,
    slashes: Seq<char>,
    wanted: Seq<char>,
)
    requires
        plain_file_name(file),
        separator == '/' || separator == '\\',
        slashes.len() == folder.len() + 1 + file.len(),
        forall|i: int|
            0 <= i < slashes.len() ==> #[trigger] slashes[i] == (if (folder.push(separator)
                + file)[i] == '\\' {
                '/'
            } else {
                (folder.push(separator) + file)[i]
            }),
    ensures
        zip_name_matches(folder.push(separator) + file, wanted) <==> (text::same_ignoring_case(
            file,
            wanted,
        ) || text::same_ignoring_case(folder.push(separator) + file, wanted)),
        tar_path_matches(folder.push(separator) + file, wanted) <==> (text::same_ignoring_case(
            file,
            wanted,
        ) || text::same_ignoring_case(slashes, wanted)),
        zip_name_matches(file, wanted) <==> text::same_ignoring_case(file, wanted),
        tar_path_matches(file, wanted) <==> text::same_ignoring_case(file, wanted),
{
    let path = folder.push(separator) + file;
    slashed_by_characters(path);
    assert(slashed(path) =~= slashes);
    assert(slashes =~= slashes.take(folder.len() as int).push('/') + file);
    text::last_segment_stands_behind_the_separator(slashes.take(folder.len() as int), file, '/');
    slashed_by_characters(file);
    assert(slashed(file) =~= file);
}

/// From a zip archive the first entry with the wanted name is taken, and its whole
/// content, whatever its length and whatever else the archive holds. An entry that
/// is damaged or cannot be opened is told, and so is one that is not there.
pub proof fn first_zip_entry_is_taken_whole(
    bytes: Seq<u8>,
    entries: Seq<(Option<Seq<char>>, Result<(Seq<u8>, Option<Seq<char>>), Seq<char>>)>,
    wanted: Seq<char>,
    i: int,
)
    requires
        zip_directory(bytes) == Ok::<
            Seq<(Option<Seq<char>>, Result<(Seq<u8>, Option<Seq<char>>), Seq<char>>)>,
            Seq<char>,
        >(entries),
        0 <= i <= entries.len(),
        forall|j: int|
            #![trigger entries[j]]
            0 <= j < i ==> entries[j].0 is None || !zip_name_matches(entries[j].0->0, wanted),
        i < entries.len() ==> entries[i].0 is Some && zip_name_matches(entries[i].0->0, wanted),
    ensures
        i < entries.len() ==> match entries[i].1 {
            Ok((content, None)) => unzipped(bytes, wanted) == Extracted::Whole(content),
            Ok((read, Some(cause))) => unzipped(bytes, wanted) == (Extracted::Damaged {
                read,
                cause,
            }),
            Err(cause) => unzipped(bytes, wanted) == Extracted::Failed(
                seq!["reading zip entry"@, cause],
            ),
        },
        i == entries.len() ==> unzipped(bytes, wanted) == Extracted::Failed(
            seq!["'"@ + wanted + "' not found in zip"@],
        ),
{
    let names = entry_names(entries);
    assert forall|j: int| 0 <= j < i implies !wanted_entry(#[trigger] names[j], wanted) by {
        assert(names[j] == entries[j].0);
    }
    if i < entries.len() {
        assert(names[i] == entries[i].0);
        assert(first_wanted(names, wanted, i));
        assert(!none_wanted(names, wanted)) by {
            assert(wanted_entry(names[i], wanted));
        }
        let k = choose|k: int| first_wanted(names, wanted, k);
        one_is_first(names, wanted, i, k);
    } else {
        assert(none_wanted(names, wanted));
    }
}

/// Bytes that are no zip archive are told as such.
pub proof fn broken_zips_are_told(bytes: Seq<u8>, wanted: Seq<char>, cause: Seq<char>)
    requires
        zip_directory(bytes) is Err,
        zip_directory(bytes)->Err_0 == cause,
    ensures
        unzipped(bytes, wanted) == Extracted::Failed(seq!["opening zip"@, cause]),
{
}

/// The path of a tar entry is read as text; on Windows only where it is UTF-8.
pub proof fn paths_are_read_as_text(bytes: Seq<u8>)
    ensures
        path_text(bytes, false) == Some(text::lossy_text(bytes)),
        vstd::utf8::valid_utf8(bytes) ==> path_text(bytes, true) == Some(
            vstd::utf8::decode_utf8(bytes),
        ),
        !vstd::utf8::valid_utf8(bytes) ==> path_text(bytes, true) is None,
{
}

/// A tar entry that the search passes over: its path is text, and not that of the
/// wanted one.
pub open spec fn passed_over(
    path: Result<Seq<u8>, Seq<char>>,
    wanted: Seq<char>,
    windows: bool,
) -> bool {
    path matches Ok(bytes) && (path_text(bytes, windows) matches Some(p) && !tar_path_matches(
        p,
        wanted,
    ))
}

/// From a gzipped tar archive the first entry with the wanted name is taken, and its
/// whole content, whatever its length and whatever stands behind it. Damage to it,
/// or to an entry before it, is told, and so is that it is not there.
pub proof fn first_tar_entry_is_taken_whole(
    bytes: Seq<u8>,
    listing: Seq<Result<Seq<u8>, Seq<char>>>,
    wanted: Seq<char>,
    windows: bool,
    i: int,
)
    requires
        tar_gz_listing(bytes) == Ok::<Seq<Result<Seq<u8>, Seq<char>>>, Seq<char>>(listing),
        0 <= i <= listing.len(),
        forall|j: int| 0 <= j < i ==> passed_over(#[trigger] listing[j], wanted, windows),
    ensures
        i < listing.len() ==> match listing[i] {
            Err(cause) => untarred(bytes, wanted, windows) == Extracted::Failed(
                seq!["reading tar entry"@, cause],
            ),
            Ok(path) => match path_text(path, windows) {
                None => untarred(bytes, wanted, windows) == Extracted::Failed(
                    seq![
                        "reading tar entry path"@,
                        "only Unicode paths are supported on Windows: "@ + text::lossy_text(path),
                    ],
                ),
                Some(p) => tar_path_matches(p, wanted) ==> match tar_gz_content(bytes, i as nat) {
                    (content, None) => untarred(bytes, wanted, windows) == Extracted::Whole(
                        content,
                    ),
                    (read, Some(cause)) => untarred(bytes, wanted, windows) == (
                    Extracted::Damaged { read, cause }),
                },
            },
        },
        i == listing.len() ==> untarred(bytes, wanted, windows) == Extracted::Failed(
            seq!["'"@ + wanted + "' not found in tar.gz"@],
        ),
{
    one_stop(listing, wanted, windows);
    assert forall|j: int| 0 <= j < i implies found_at(#[trigger] listing[j], wanted, windows)
        == Found::Other by {
        assert(passed_over(listing[j], wanted, windows));
    }
    if i < listing.len() {
        if found_at(listing[i], wanted, windows) != Found::Other {
            assert(stops_at(listing, wanted, windows, i));
        }
    } else {
        assert forall|k: int| !stops_at(listing, wanted, windows, k) by {
            if stops_at(listing, wanted, windows, k) {
                assert(found_at(listing[k], wanted, windows) == Found::Other);
            }
        }
    }
}

/// Bytes that cannot be read as a gzipped tar archive are told as such.
pub proof fn broken_tars_are_told(
    bytes: Seq<u8>,
    wanted: Seq<char>,
    windows: bool,
    cause: Seq<char>,
)
    requires
        tar_gz_listing(bytes) is Err,
        tar_gz_listing(bytes)->Err_0 == cause,
    ensures
        untarred(bytes, wanted, windows) == Extracted::Failed(seq!["reading tar entries"@, cause]),
{
}

/// The views of what is read from an archive show all of it.
pub proof fn contents_are_shown_as_they_are(
    content: Vec<u8>,
    cause: String,
    error: ExtractError,
    names: Seq<Option<String>>,
    paths: Seq<Result<Vec<u8>, String>>,
    i: int,
)
    ensures
        outcome(Ok(Content::Whole(content))) == Extracted::Whole(content@),
        outcome(Ok(Content::Damaged { read: content, cause })) == (Extracted::Damaged {
            read: content@,
            cause: cause@,
        }),
        outcome(Err(error)) == Extracted::Failed(error.told()),
        read_view((content, None)) == (content@, None::<Seq<char>>),
        read_view((content, Some(cause))) == (content@, Some(cause@)),
        read_outcome((content@, None)) == Extracted::Whole(content@),
        read_outcome((content@, Some(cause@))) == (Extracted::Damaged {
            read: content@,
            cause: cause@,
        }),
        opt_texts(names).len() == names.len(),
        0 <= i < names.len() ==> opt_texts(names)[i] == text::text_of(names[i]),
        listing_view(paths).len() == paths.len(),
        0 <= i < paths.len() ==> match paths[i] {
            Ok(path) => listing_view(paths)[i] == Ok::<Seq<u8>, Seq<char>>(path@),
            Err(m) => listing_view(paths)[i] == Err::<Seq<u8>, Seq<char>>(m@),
        },
{
}

/// The first name that is wanted is found, and none is where none is wanted.
pub proof fn wanted_names_are_found(
    names: Seq<Option<Seq<char>>>,
    wanted: Seq<char>,
    i: int,
    k: int,
)
    requires
        0 <= i <= names.len(),
        forall|j: int|
            #![trigger names[j]]
            0 <= j < i ==> names[j] is None || !zip_name_matches(names[j]->0, wanted),
        i < names.len() ==> names[i] is Some && zip_name_matches(names[i]->0, wanted),
    ensures
        i < names.len() ==> (first_wanted(names, wanted, k) <==> k == i),
        i == names.len() <==> none_wanted(names, wanted),
{
    if i < names.len() {
        assert(wanted_entry(names[i], wanted));
        assert(first_wanted(names, wanted, i));
        if first_wanted(names, wanted, k) {
            one_is_first(names, wanted, i, k);
        }
    }
}

} // verus!
