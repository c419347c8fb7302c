//! Whether a download has the checksum that its release lists.
use vstd::prelude::*;

use crate::error::UpdateError;
use crate::release::GhAsset;
use crate::text;
use crate::text::{decode_lossy, ends_with, first_word, has, lines, same, to_lower};

verus! {

/// The SHA-256 digest of `data`, as the `sha2` crate computes it.
pub uninterp spec fn sha256(data: Seq<u8>) -> Seq<u8>;

/// `sha2::Sha256`: the digest of `data`, which is 32 bytes long.
#[verifier::external_body]
fn sha256_digest(data: &[u8]) -> (r: Vec<u8>)
    ensures
        r@ == sha256(data@),
        r@.len() == 32,
{
    let mut hasher = <sha2::Sha256 as sha2::Digest>::new();
    sha2::Digest::update(&mut hasher, data);
    sha2::Digest::finalize(hasher).to_vec()
}

/// The hexadecimal digit for `d`, in lower case.
pub open spec fn hex_digit(d: int) -> char {
    if d < 10 {
        (48 + d) as u8 as char
    } else {
        (87 + d) as u8 as char
    }
}

/// `data` in hexadecimal: two digits for each byte, the higher one first.
pub open spec fn lower_hex(data: Seq<u8>) -> Seq<char> {
    Seq::new(
        2 * data.len(),
        |i: int|
            if i % 2 == 0 {
                hex_digit(data[i / 2] as int / 16)
            } else {
                hex_digit(data[i / 2] as int % 16)
            },
    )
}

/// `hex::encode`: the bytes in hexadecimal, with lower case letters.
#[verifier::external_body]
fn hex_encode(data: &[u8]) -> (r: String)
    ensures
        r@ == lower_hex(data@),
{
    hex::encode(data)
}

/// The digest of `data` as checksum files write it.
pub open spec fn digest_text(data: Seq<u8>) -> Seq<char> {
    lower_hex(sha256(data))
}

/// The digest of `data` as checksum files write it.
pub fn digest(data: &[u8]) -> (r: String)
    ensures
        r@ == digest_text(data@),
{
    hex_encode(sha256_digest(data).as_slice())
}

/// Whether an asset is named like a file with checksums for the asset `asset`,
/// both names in lower case. A signature of such a file is not meant.
pub open spec fn names_checksums(name: Seq<char>, asset: Seq<char>) -> bool {
    &&& !text::has_suffix(name, ".sig"@)
    &&& !text::has_suffix(name, ".asc"@)
    &&& !text::has_suffix(name, ".pem"@)
    &&& {
        ||| name == asset + ".sha256"@
        ||| name == asset + ".sha256sum"@
        ||| name == "checksums.txt"@
        ||| name == "sha256sums.txt"@
        ||| name == "sha256sums"@
        ||| text::contains(name, "checksums"@)
        ||| text::contains(name, "sha256"@)
    }
}

/// Whether an asset is named like a file with checksums for the asset `asset`,
/// both names in lower case.
pub fn is_checksum_name(name: &str, asset: &str) -> (r: bool)
    ensures
        r == names_checksums(name@, asset@),
{
    if ends_with(name, ".sig") || ends_with(name, ".asc") || ends_with(name, ".pem") {
        return false;
    }
    let mut plain: String = asset.to_string();
    plain.append(".sha256");
    let mut sum: String = asset.to_string();
    sum.append(".sha256sum");
    same(name, plain.as_str()) || same(name, sum.as_str()) || same(name, "checksums.txt") || same(
        name,
        "sha256sums.txt",
    ) || same(name, "sha256sums") || has(name, "checksums") || has(name, "sha256")
}

/// An asset of a release holds checksums for the asset `asset_name`.
pub open spec fn holds_checksums(asset: GhAsset, asset_name: Seq<char>) -> bool {
    names_checksums(text::lowercase(asset.name@), text::lowercase(asset_name))
}

/// The first of the assets that holds checksums for the asset `asset_name`.
pub open spec fn checksum_file(assets: Seq<GhAsset>, asset_name: Seq<char>) -> Option<GhAsset>
    decreases assets.len(),
{
    if assets.len() == 0 {
        None
    } else if holds_checksums(assets[0], asset_name) {
        Some(assets[0])
    } else {
        checksum_file(assets.skip(1), asset_name)
    }
}

/// The position of the first asset with checksums for the asset `asset_name`.
pub fn find_checksum_asset(assets: &Vec<GhAsset>, asset_name: &str) -> (r: Option<usize>)
    ensures
        match r {
            Some(i) => {
                &&& i < assets@.len()
                &&& holds_checksums(assets@[i as int], asset_name@)
                &&& forall|j: int|
                    0 <= j < i ==> !holds_checksums(#[trigger] assets@[j], asset_name@)
                &&& checksum_file(assets@, asset_name@) == Some(assets@[i as int])
            },
            None => {
                &&& forall|j: int|
                    0 <= j < assets@.len() ==> !holds_checksums(#[trigger] assets@[j], asset_name@)
                &&& checksum_file(assets@, asset_name@) is None
            },
        },
{
    let wanted: String = to_lower(asset_name);
    let mut i: usize = 0;
    assert(assets@.skip(0) =~= assets@);
    while i < assets.len()
        invariant
            i <= assets@.len(),
            wanted@ == text::lowercase(asset_name@),
            forall|j: int| 0 <= j < i ==> !holds_checksums(#[trigger] assets@[j], asset_name@),
            checksum_file(assets@.skip(i as int), asset_name@) == checksum_file(
                assets@,
                asset_name@,
            ),
        decreases assets@.len() - i,
    {
        assert(assets@.skip(i as int)[0] == assets@[i as int]);
        assert(assets@.skip(i as int).skip(1) =~= assets@.skip(i + 1));
        if is_checksum_name(to_lower(assets[i].name.as_str()).as_str(), wanted.as_str()) {
            return Some(i);
        }
        i = i + 1;
    }
    None
}

/// A line with a checksum for the asset `asset_name`: it holds the name, and
/// some word.
pub open spec fn lists(line: Seq<char>, asset_name: Seq<char>) -> bool {
    text::contains(line, asset_name) && text::first_word_of(line) is Some
}

/// The first word of the first of the lines that lists the asset `asset_name`.
pub open spec fn listed_word(lines: Seq<Seq<char>>, asset_name: Seq<char>) -> Option<Seq<char>>
    decreases lines.len(),
{
    if lines.len() == 0 {
        None
    } else if lists(lines[0], asset_name) {
        text::first_word_of(lines[0])
    } else {
        listed_word(lines.skip(1), asset_name)
    }
}

/// The first word of the first line of a checksum file that lists the asset
/// `asset_name`.
pub fn find_listed(checksums: &str, asset_name: &str) -> (r: Option<String>)
    ensures
        text::text_of(r) == listed_word(text::lines_of(checksums@), asset_name@),
{
    let list: Vec<String> = lines(checksums);
    let ghost all = text::texts(list@);
    let mut i: usize = 0;
    assert(all.skip(0) =~= all);
    while i < list.len()
        invariant
            i <= list@.len(),
            all == text::texts(list@),
            all == text::lines_of(checksums@),
            listed_word(all.skip(i as int), asset_name@) == listed_word(all, asset_name@),
        decreases list@.len() - i,
    {
        assert(all.skip(i as int)[0] == list@[i as int]@);
        assert(all.skip(i as int).skip(1) =~= all.skip(i + 1));
        if has(list[i].as_str(), asset_name) {
            let word: Option<String> = first_word(list[i].as_str());
            if word.is_some() {
                return word;
            }
        }
        i = i + 1;
    }
    assert(all.skip(i as int).len() == 0);
    None
}

/// The checksum that a checksum file lists for the asset `asset_name`, in lower
/// case.
pub open spec fn expected_hash(checksums: Seq<char>, asset_name: Seq<char>) -> Option<Seq<char>> {
    match listed_word(text::lines_of(checksums), asset_name) {
        Some(word) => Some(text::lowercase(word)),
        None => None,
    }
}

/// Compares the digest of an asset with the checksum that is listed for it, if
/// one is.
pub fn check_digest(asset_name: &str, expected: Option<String>, actual: String) -> (r: Result<
    (),
    UpdateError,
>)
    ensures
        match expected {
            Some(e) => if e@ == actual@ {
                r is Ok
            } else {
                r matches Err(
                    UpdateError::ChecksumMismatch { asset, expected: told, actual: found },
                ) && asset@ == asset_name@ && told@ == e@ && found@ == actual@
            },
            None => r is Ok,
        },
{
    match expected {
        Some(expected) => {
            if same(expected.as_str(), actual.as_str()) {
                Ok(())
            } else {
                Err(
                    UpdateError::ChecksumMismatch {
                        asset: asset_name.to_string(),
                        expected,
                        actual,
                    },
                )
            }
        },
        None => Ok(()),
    }
}

/// A checksum file speaks for an asset: it lists the digest of the asset, or it
/// does not list the asset.
pub open spec fn vouches(checksums: Seq<u8>, asset_name: Seq<char>, asset: Seq<u8>) -> bool {
    match expected_hash(text::lossy_text(checksums), asset_name) {
        Some(hash) => hash == digest_text(asset),
        None => true,
    }
}

/// Holds an asset to the checksum file of its release.
pub fn verify_checksum(asset_name: &str, asset: &[u8], checksums: &[u8]) -> (r: Result<
    (),
    UpdateError,
>)
    ensures
        r is Ok <==> vouches(checksums@, asset_name@, asset@),
        r matches Err(e) ==> (e matches UpdateError::ChecksumMismatch {
            asset: told,
            expected,
            actual,
        } && told@ == asset_name@ && expected_hash(text::lossy_text(checksums@), asset_name@)
            == Some(expected@) && actual@ == digest_text(asset@)),
{
    let listed: Option<String> = find_listed(decode_lossy(checksums).as_str(), asset_name);
    match listed {
        Some(word) => check_digest(asset_name, Some(to_lower(word.as_str())), digest(asset)),
        None => Ok(()),
    }
}

/// The checksum file that a release names after its asset is taken for one.
pub proof fn own_checksum_file_counts(asset: Seq<char>)
    ensures
        names_checksums(asset + ".sha256"@, asset),
        names_checksums(asset + ".sha256sum"@, asset),
{
    reveal_strlit(".sha256");
    reveal_strlit(".sha256sum");
    reveal_strlit(".sig");
    reveal_strlit(".asc");
    reveal_strlit(".pem");
    let plain = asset + ".sha256"@;
    let sum = asset + ".sha256sum"@;
    assert(plain.subrange(plain.len() - 4, plain.len() as int)[3] == '6');
    assert(sum.subrange(sum.len() - 4, sum.len() as int)[3] == 'm');
    assert(sum.subrange(sum.len() - 4, sum.len() as int)[1] == 's');
    assert(".sig"@[3] == 'g' && ".asc"@[3] == 'c' && ".pem"@[3] == 'm' && ".pem"@[1] == 'p');
}

/// In a checksum file the first line that lists the asset decides, whatever
/// stands after it.
pub proof fn first_listing_counts(
    before: Seq<Seq<char>>,
    line: Seq<char>,
    after: Seq<Seq<char>>,
    asset_name: Seq<char>,
)
    requires
        forall|i: int| 0 <= i < before.len() ==> !lists(#[trigger] before[i], asset_name),
        lists(line, asset_name),
    ensures
        listed_word(before.push(line) + after, asset_name) == text::first_word_of(line),
    decreases before.len(),
{
    let all = before.push(line) + after;
    if before.len() == 0 {
        assert(all[0] == line);
    } else {
        assert(all[0] == before[0]);
        assert(all.skip(1) =~= before.skip(1).push(line) + after);
        first_listing_counts(before.skip(1), line, after, asset_name);
    }
}

/// A line in the usual form, a checksum, two spaces and the name, lists the asset
/// with that checksum.
pub proof fn usual_line_lists(hash: Seq<char>, asset_name: Seq<char>)
    requires
        hash.len() > 0,
        forall|i: int| 0 <= i < hash.len() ==> !text::is_white(#[trigger] hash[i]),
    ensures
        lists(hash + "  "@ + asset_name, asset_name),
        text::first_word_of(hash + "  "@ + asset_name) == Some(hash),
{
    reveal_strlit("  ");
    let line = hash + "  "@ + asset_name;
    assert(line[0] == hash[0]);
    word_before(hash, "  "@ + asset_name);
    assert(line =~= hash + ("  "@ + asset_name));
    let at = hash.len() as int + 2;
    assert(line.subrange(at, at + asset_name.len()) =~= asset_name);
    assert(text::occurs_at(line, asset_name, at));
}

proof fn word_before(word: Seq<char>, rest: Seq<char>)
    requires
        forall|i: int| 0 <= i < word.len() ==> !text::is_white(#[trigger] word[i]),
        rest.len() > 0,
        text::is_white(rest[0]),
    ensures
        text::word_prefix(word + rest) == word,
    decreases word.len(),
{
    let s = word + rest;
    if word.len() == 0 {
        assert(s[0] == rest[0]);
    } else {
        assert(s[0] == word[0]);
        assert(s.skip(1) =~= word.skip(1) + rest);
        word_before(word.skip(1), rest);
        assert(seq![word[0]] + word.skip(1) =~= word);
    }
}

/// Of the downloads for an asset that a checksum file lists, it speaks for those
/// with one digest only.
pub proof fn one_digest_passes(
    checksums: Seq<u8>,
    asset_name: Seq<char>,
    asset: Seq<u8>,
    other: Seq<u8>,
)
    requires
        expected_hash(text::lossy_text(checksums), asset_name) is Some,
        vouches(checksums, asset_name, asset),
        vouches(checksums, asset_name, other),
    ensures
        sha256(asset) == sha256(other),
{
    hex_is_faithful(sha256(asset), sha256(other));
}

proof fn hex_is_faithful(a: Seq<u8>, b: Seq<u8>)
    requires
        lower_hex(a) == lower_hex(b),
    ensures
        a == b,
{
    assert(lower_hex(a).len() == 2 * a.len());
    assert(lower_hex(b).len() == 2 * b.len());
    assert forall|i: int| 0 <= i < a.len() implies a[i] == b[i] by {
        assert(lower_hex(a)[2 * i] == lower_hex(b)[2 * i]);
        assert(lower_hex(a)[2 * i + 1] == lower_hex(b)[2 * i + 1]);
        assert((2 * i) / 2 == i && (2 * i + 1) / 2 == i);
        assert((2 * i) % 2 == 0 && (2 * i + 1) % 2 == 1);
        assert(0 <= 2 * i && 2 * i + 1 < 2 * a.len());
        assert(lower_hex(a)[2 * i] == hex_digit(a[i] as int / 16));
        assert(lower_hex(b)[2 * i] == hex_digit(b[i] as int / 16));
        assert(lower_hex(a)[2 * i + 1] == hex_digit(a[i] as int % 16));
        assert(lower_hex(b)[2 * i + 1] == hex_digit(b[i] as int % 16));
        digits_differ(a[i] as int / 16, b[i] as int / 16);
        digits_differ(a[i] as int % 16, b[i] as int % 16);
    }
    assert(a =~= b);
}

proof fn digits_differ(x: int, y: int)
    requires
        0 <= x < 16,
        0 <= y < 16,
        hex_digit(x) == hex_digit(y),
    ensures
        x == y,
{
}

/// The signature of a checksum file is never taken for a checksum file.
pub proof fn signatures_do_not_count(name: Seq<char>, asset: Seq<char>)
    ensures
        !names_checksums(name + ".sig"@, asset),
        !names_checksums(name + ".asc"@, asset),
        !names_checksums(name + ".pem"@, asset),
{
    ends_with_what_was_added(name, ".sig"@);
    ends_with_what_was_added(name, ".asc"@);
    ends_with_what_was_added(name, ".pem"@);
}

proof fn ends_with_what_was_added(s: Seq<char>, suffix: Seq<char>)
    ensures
        text::has_suffix(s + suffix, suffix),
{
    let all = s + suffix;
    assert(all.subrange(s.len() as int, all.len() as int) =~= suffix);
}

/// An asset is taken for a checksum file exactly where its name speaks of checksums
/// or of SHA-256, and does not end as that of a signature or certificate does. The
/// name of the asset that is to be checked does not matter.
pub proof fn checksum_files_are_known_by_two_words(name: Seq<char>, asset: Seq<char>)
    ensures
        names_checksums(name, asset) <==> {
            &&& text::contains(name, "checksums"@) || text::contains(name, "sha256"@)
            &&& !exists|stem: Seq<char>| name == #[trigger] (stem + ".sig"@)
            &&& !exists|stem: Seq<char>| name == #[trigger] (stem + ".asc"@)
            &&& !exists|stem: Seq<char>| name == #[trigger] (stem + ".pem"@)
        },
{
    let e = Seq::<char>::empty();
    text::suffixes_stand_at_the_end(name, e, ".sig"@);
    text::suffixes_stand_at_the_end(name, e, ".asc"@);
    text::suffixes_stand_at_the_end(name, e, ".pem"@);
    reveal_strlit(".sha256");
    reveal_strlit(".sha256sum");
    reveal_strlit("sha256");
    reveal_strlit("checksums");
    reveal_strlit("checksums.txt");
    reveal_strlit("sha256sums.txt");
    reveal_strlit("sha256sums");
    let plain = asset + ".sha256"@;
    let at = asset.len() as int + 1;
    assert(plain.subrange(at, at + 6) =~= "sha256"@);
    assert(text::occurs_at(plain, "sha256"@, at));
    let sum = asset + ".sha256sum"@;
    assert(sum.subrange(at, at + 6) =~= "sha256"@);
    assert(text::occurs_at(sum, "sha256"@, at));
    assert("checksums.txt"@.subrange(0, 9) =~= "checksums"@);
    assert(text::occurs_at("checksums.txt"@, "checksums"@, 0));
    assert("sha256sums.txt"@.subrange(0, 6) =~= "sha256"@);
    assert(text::occurs_at("sha256sums.txt"@, "sha256"@, 0));
    assert("sha256sums"@.subrange(0, 6) =~= "sha256"@);
    assert(text::occurs_at("sha256sums"@, "sha256"@, 0));
}

/// Names are compared in lower case, so an asset whose name is that of a checksum
/// file in lower case is one.
pub proof fn checksum_files_are_known_in_any_case(asset: GhAsset, asset_name: Seq<char>)
    ensures
        holds_checksums(asset, asset_name) <==> {
            let name = text::lowercase(asset.name@);
            &&& text::contains(name, "checksums"@) || text::contains(name, "sha256"@)
            &&& !exists|stem: Seq<char>| name == #[trigger] (stem + ".sig"@)
            &&& !exists|stem: Seq<char>| name == #[trigger] (stem + ".asc"@)
            &&& !exists|stem: Seq<char>| name == #[trigger] (stem + ".pem"@)
        },
{
    checksum_files_are_known_by_two_words(
        text::lowercase(asset.name@),
        text::lowercase(asset_name),
    );
}

/// Of the assets of a release the first one that is a checksum file is taken,
/// however many stand before and behind it; none is taken only where none is one.
pub proof fn first_checksum_file_is_taken(
    before: Seq<GhAsset>,
    file: GhAsset,
    after: Seq<GhAsset>,
    asset_name: Seq<char>,
)
    requires
        forall|i: int| 0 <= i < before.len() ==> !holds_checksums(#[trigger] before[i], asset_name),
    ensures
        holds_checksums(file, asset_name) ==> checksum_file(before.push(file) + after, asset_name)
            == Some(file),
        checksum_file(before, asset_name) is None,
    decreases before.len(),
{
    let all = before.push(file) + after;
    if before.len() == 0 {
        assert(all[0] == file);
    } else {
        assert(all[0] == before[0]);
        assert(all.skip(1) =~= before.skip(1).push(file) + after);
        first_checksum_file_is_taken(before.skip(1), file, after, asset_name);
    }
}

/// The line has nothing to say of the asset: it does not hold the name, or it holds
/// nothing but white space.
pub open spec fn silent_on(line: Seq<char>, asset_name: Seq<char>) -> bool {
    !text::contains(line, asset_name) || text::blank(line)
}

proof fn silent_lines_list_nothing(line: Seq<char>, asset_name: Seq<char>)
    requires
        silent_on(line, asset_name),
    ensures
        !lists(line, asset_name),
{
    if text::blank(line) {
        text::first_word_stands_before_white_space(line, Seq::empty(), Seq::empty());
    }
}

/// A checksum file of any length is held against the asset: the first of its lines
/// that holds the name of the asset and any word decides, by its first word. It
/// speaks for the asset exactly where that word, in lower case, is the SHA-256
/// digest of the asset in hexadecimal.
pub proof fn listed_checksum_decides(
    checksums: Seq<u8>,
    before: Seq<Seq<char>>,
    pad: Seq<char>,
    word: Seq<char>,
    rest: Seq<char>,
    after: Seq<Seq<char>>,
    asset_name: Seq<char>,
    asset: Seq<u8>,
)
    requires
        text::lines_of(text::lossy_text(checksums)) == before.push(pad + word + rest) + after,
        forall|i: int| 0 <= i < before.len() ==> silent_on(#[trigger] before[i], asset_name),
        text::contains(pad + word + rest, asset_name),
        text::blank(pad),
        word.len() > 0,
        forall|i: int| 0 <= i < word.len() ==> !text::is_white(#[trigger] word[i]),
        rest.len() > 0 ==> text::is_white(rest[0]),
    ensures
        vouches(checksums, asset_name, asset) <==> text::lowercase(word) == lower_hex(
            sha256(asset),
        ),
        expected_hash(text::lossy_text(checksums), asset_name) == Some(text::lowercase(word)),
{
    text::first_word_stands_before_white_space(pad, word, rest);
    assert forall|i: int| 0 <= i < before.len() implies !lists(#[trigger] before[i], asset_name) by {
        silent_lines_list_nothing(before[i], asset_name);
    }
    first_listing_counts(before, pad + word + rest, after, asset_name);
}

/// A checksum file of which no line has anything to say of the asset does not speak
/// against it.
pub proof fn unlisted_assets_pass(checksums: Seq<u8>, asset_name: Seq<char>, asset: Seq<u8>)
    requires
        forall|i: int|
            0 <= i < text::lines_of(text::lossy_text(checksums)).len() ==> silent_on(
                #[trigger] text::lines_of(text::lossy_text(checksums))[i],
                asset_name,
            ),
    ensures
        vouches(checksums, asset_name, asset),
{
    let lines = text::lines_of(text::lossy_text(checksums));
    assert forall|i: int| 0 <= i < lines.len() implies !lists(#[trigger] lines[i], asset_name) by {
        silent_lines_list_nothing(lines[i], asset_name);
    }
    nothing_listed(lines, asset_name);
}

proof fn nothing_listed(lines: Seq<Seq<char>>, asset_name: Seq<char>)
    requires
        forall|i: int| 0 <= i < lines.len() ==> !lists(#[trigger] lines[i], asset_name),
    ensures
        listed_word(lines, asset_name) is None,
    decreases lines.len(),
{
    if lines.len() > 0 {
        nothing_listed(lines.skip(1), asset_name);
    }
}

/// The digest of an asset is written with two digits for each of its bytes.
pub proof fn digests_are_written_in_full(asset: Seq<u8>, i: int)
    requires
        0 <= i < sha256(asset).len(),
    ensures
        digest_text(asset).len() == 2 * sha256(asset).len(),
        digest_text(asset)[2 * i] == hex_digit(sha256(asset)[i] as int / 16),
        digest_text(asset)[2 * i + 1] == hex_digit(sha256(asset)[i] as int % 16),
{
    assert((2 * i) / 2 == i && (2 * i + 1) / 2 == i);
    assert((2 * i) % 2 == 0 && (2 * i + 1) % 2 == 1);
    assert(0 <= 2 * i && 2 * i + 1 < 2 * sha256(asset).len());
}

} // verus!
