//! Release assets: which published file is the one for this machine.
//!
//! An asset's file name starts with the name of an operating system and, after
//! a hyphen, the word size of the build, as in `linux-x64-portable.zip`.

use vstd::prelude::*;
use vstd::string::StrSliceExecFns;

verus! {

/// The position of the first hyphen of `name` at or after `from`, or the
/// length of `name` where there is none.
pub open spec fn next_hyphen(name: Seq<char>, from: int) -> int
    decreases name.len() - from,
{
    if from >= name.len() {
        name.len() as int
    } else if name[from] == '-' {
        from
    } else {
        next_hyphen(name, from + 1)
    }
}

/// The first position from `from` on, and before `to`, that does not hold the
/// letter `x`; `to` where there is none.
pub open spec fn skip_x(name: Seq<char>, from: int, to: int) -> int
    decreases to - from,
{
    if from >= to {
        to
    } else if name[from] != 'x' {
        from
    } else {
        skip_x(name, from + 1, to)
    }
}

/// Whether `c` is a decimal digit.
pub open spec fn is_digit(c: char) -> bool {
    '0' <= c <= '9'
}

/// Whether `text` holds decimal digits only.
pub open spec fn all_digits(text: Seq<char>) -> bool {
    forall|i: int| 0 <= i < text.len() ==> is_digit(#[trigger] text[i])
}

/// The number that the decimal digits `digits` write.
pub open spec fn number_value(digits: Seq<char>) -> nat
    decreases digits.len(),
{
    if digits.len() == 0 {
        0
    } else {
        number_value(digits.drop_last()) * 10 + (digits.last() as nat - '0' as nat) as nat
    }
}

/// What is left of `text` without the plus sign it may start with.
pub open spec fn unsigned_part(text: Seq<char>) -> Seq<char> {
    if text.len() > 0 && text[0] == '+' {
        text.drop_first()
    } else {
        text
    }
}

/// The number below 256 that `text` writes: decimal digits, at least one,
/// after an optional plus sign. Nothing where `text` is anything else.
pub open spec fn spec_parse_small(text: Seq<char>) -> Option<u8> {
    let digits = unsigned_part(text);
    if digits.len() > 0 && all_digits(digits) && number_value(digits) <= 255 {
        Some(number_value(digits) as u8)
    } else {
        None
    }
}

/// The word size in bits that a file name's number stands for: `86`, from
/// `x86`, stands for 32 bits, any other number for itself.
pub open spec fn spec_width(number: u8) -> u8 {
    if number == 86 {
        32
    } else {
        number
    }
}

/// What a file name says: the operating system, which is the text before the
/// first hyphen, and the word size, which is the number written between the
/// first hyphen and the next, after any leading `x`. Nothing where the name has
/// no hyphen or no such number.
pub open spec fn spec_parse_name(name: Seq<char>) -> Option<(Seq<char>, u8)> {
    let first = next_hyphen(name, 0);
    if first >= name.len() {
        None
    } else {
        let end = next_hyphen(name, first + 1);
        let start = skip_x(name, first + 1, end);
        match spec_parse_small(name.subrange(start, end)) {
            Some(number) => Some((name.subrange(0, first), spec_width(number))),
            None => None,
        }
    }
}

/// A published file of a release: the platform it was built for and the
/// number it is downloaded by.
#[derive(Clone, Debug)]
pub struct ReleaseAsset {
    /// The operating system of this asset.
    pub os: String,
    /// The word size in bits.
    pub width: u8,
    /// The number of this asset.
    pub id: u64,
}

/// An asset as it is listed with a release: its file name and its number,
/// either of which may be missing from the listing.
#[derive(Clone, Debug)]
pub struct AssetEntry {
    pub name: Option<String>,
    pub id: Option<u64>,
}

impl AssetEntry {
    /// What the entry says, where it is complete and its name can be read.
    pub open spec fn spec_parse(&self) -> Option<(Seq<char>, u8, u64)> {
        match (self.name, self.id) {
            (Some(name), Some(id)) => match spec_parse_name(name@) {
                Some((os, width)) => Some((os, width, id)),
                None => None,
            },
            _ => None,
        }
    }

    /// Whether the entry is an asset for the operating system `os` and the
    /// word size `width`.
    pub open spec fn is_for(&self, os: Seq<char>, width: u8) -> bool {
        self.spec_parse() matches Some(asset) && asset.0 == os && asset.1 == width
    }
}

/// The first of `entries` that is an asset for `os` and `width`, if there is
/// one.
pub open spec fn spec_pick(entries: Seq<AssetEntry>, os: Seq<char>, width: u8) -> Option<
    (Seq<char>, u8, u64),
>
    decreases entries.len(),
{
    if entries.len() == 0 {
        None
    } else if entries[0].is_for(os, width) {
        entries[0].spec_parse()
    } else {
        spec_pick(entries.drop_first(), os, width)
    }
}

/// Finds the first hyphen at or after `from`.
fn find_hyphen(name: &str, from: usize) -> (at: usize)
    requires
        from <= name@.len(),
    ensures
        at == next_hyphen(name@, from as int),
        from <= at <= name@.len(),
{
    let len = name.unicode_len();
    let mut at = from;
    while at < len && name.get_char(at) != '-'
        invariant
            from <= at <= len,
            len == name@.len(),
            next_hyphen(name@, from as int) == next_hyphen(name@, at as int),
        decreases len - at,
    {
        at += 1;
    }
    at
}

/// Passes over the letters `x` that stand at `from`, up to `to`.
fn pass_x(name: &str, from: usize, to: usize) -> (at: usize)
    requires
        from <= to <= name@.len(),
    ensures
        at == skip_x(name@, from as int, to as int),
        from <= at <= to,
{
    let mut at = from;
    while at < to && name.get_char(at) == 'x'
        invariant
            from <= at <= to <= name@.len(),
            skip_x(name@, from as int, to as int) == skip_x(name@, at as int, to as int),
        decreases to - at,
    {
        at += 1;
    }
    at
}

/// The digits read so far never write more than all the digits do.
proof fn lemma_value_grows(digits: Seq<char>, upto: int)
    requires
        0 <= upto <= digits.len(),
        all_digits(digits),
    ensures
        number_value(digits.subrange(0, upto)) <= number_value(digits),
    decreases digits.len() - upto,
{
    if upto == digits.len() {
        assert(digits.subrange(0, upto) =~= digits);
    } else {
        lemma_value_grows(digits, upto + 1);
        let longer = digits.subrange(0, upto + 1);
        assert(longer.drop_last() =~= digits.subrange(0, upto));
        assert(is_digit(digits[upto]));
        assert(longer.last() == digits[upto]);
    }
}

/// Reads the number below 256 written in `text` from `from` up to `to`.
fn parse_small(text: &str, from: usize, to: usize) -> (number: Option<u8>)
    requires
        from <= to <= text@.len(),
    ensures
        number == spec_parse_small(text@.subrange(from as int, to as int)),
{
    let ghost whole = text@.subrange(from as int, to as int);
    let mut at = from;
    if at < to && text.get_char(at) == '+' {
        at += 1;
        assert(whole.drop_first() =~= text@.subrange(at as int, to as int));
    }
    let start = at;
    let ghost digits = text@.subrange(start as int, to as int);
    assert(unsigned_part(whole) == digits);
    if at == to {
        return None;
    }
    let mut value: u32 = 0;
    assert(digits.subrange(0, 0) =~= Seq::<char>::empty());
    while at < to
        invariant
            start <= at <= to <= text@.len(),
            digits == text@.subrange(start as int, to as int),
            whole == text@.subrange(from as int, to as int),
            unsigned_part(whole) == digits,
            all_digits(digits.subrange(0, at - start)),
            value == number_value(digits.subrange(0, at - start)),
            value <= 255,
        decreases to - at,
    {
        let c = text.get_char(at);
        if !(c >= '0' && c <= '9') {
            assert(!is_digit(digits[at - start]));
            return None;
        }
        let ghost seen = digits.subrange(0, at - start + 1);
        proof {
            assert(seen.drop_last() =~= digits.subrange(0, at - start));
            assert(seen.last() == c);
            assert forall|i: int| 0 <= i < seen.len() implies is_digit(#[trigger] seen[i]) by {
                if i < at - start {
                    assert(seen[i] == digits.subrange(0, at - start)[i]);
                }
            }
        }
        let next = value * 10 + (c as u32 - '0' as u32);
        if next > 255 {
            proof {
                if all_digits(digits) {
                    lemma_value_grows(digits, at - start + 1);
                }
            }
            return None;
        }
        value = next;
        at += 1;
    }
    assert(digits.subrange(0, at - start) =~= digits);
    Some(value as u8)
}

impl ReleaseAsset {
    /// Whether this is the asset that `entry` describes.
    pub open spec fn is(&self, entry: (Seq<char>, u8, u64)) -> bool {
        self.os@ == entry.0 && self.width == entry.1 && self.id == entry.2
    }

    /// Reads a release asset from its file name and its number.
    pub fn parse(name: &str, id: u64) -> (asset: Option<ReleaseAsset>)
        ensures
            match spec_parse_name(name@) {
                Some((os, width)) => asset matches Some(found) && found.is((os, width, id)),
                None => asset is None,
            },
    {
        let len = name.unicode_len();
        let first = find_hyphen(name, 0);
        if first >= len {
            return None;
        }
        let end = find_hyphen(name, first + 1);
        let start = pass_x(name, first + 1, end);
        match parse_small(name, start, end) {
            Some(number) => {
                let width = if number == 86 {
                    32
                } else {
                    number
                };
                Some(ReleaseAsset { os: name.substring_char(0, first).to_owned(), width, id })
            },
            None => None,
        }
    }

    /// Reads a release asset from an entry of a release's listing.
    pub fn from_entry(entry: &AssetEntry) -> (asset: Option<ReleaseAsset>)
        ensures
            match entry.spec_parse() {
                Some(described) => asset matches Some(found) && found.is(described),
                None => asset is None,
            },
    {
        match (&entry.name, &entry.id) {
            (Some(name), Some(id)) => ReleaseAsset::parse(name.as_str(), *id),
            _ => None,
        }
    }

    /// Whether the asset was built for the operating system `os` and the word
    /// size `width`.
    pub fn matches(&self, os: &String, width: u8) -> (b: bool)
        ensures
            b == (self.os@ == os@ && self.width == width),
    {
        self.os == *os && self.width == width
    }

    /// Finds the asset for the operating system `os` and the word size
    /// `width`: the first entry of the listing that can be read and was built
    /// for that platform.
    pub fn pick(entries: &Vec<AssetEntry>, os: &String, width: u8) -> (asset: Option<ReleaseAsset>)
        ensures
            match spec_pick(entries@, os@, width) {
                Some(described) => asset matches Some(found) && found.is(described),
                None => asset is None,
            },
    {
        let mut i: usize = 0;
        assert(entries@.subrange(0, entries@.len() as int) =~= entries@);
        while i < entries.len()
            invariant
                i <= entries.len(),
                spec_pick(entries@, os@, width) == spec_pick(
                    entries@.subrange(i as int, entries@.len() as int),
                    os@,
                    width,
                ),
            decreases entries.len() - i,
        {
            let ghost rest = entries@.subrange(i as int, entries@.len() as int);
            assert(rest[0] == entries@[i as int]);
            assert(rest.drop_first() =~= entries@.subrange(i + 1, entries@.len() as int));
            match ReleaseAsset::from_entry(&entries[i]) {
                Some(found) => {
                    if found.matches(os, width) {
                        return Some(found);
                    }
                },
                None => {},
            }
            i += 1;
        }
        None
    }
}

/// What `semver` makes of two texts: whether the first, read as a version,
/// orders above the second, read as a version; nothing where either text is no
/// version.
pub uninterp spec fn version_above(candidate: Seq<char>, current: Seq<char>) -> Option<bool>;

/// Reads both texts with `semver::Version::parse` and compares the versions
/// with `>`, the order that `semver::Version` derives over its parts.
#[verifier::external_body]
fn compare_versions(candidate: &str, current: &str) -> (above: Option<bool>)
    ensures
        above == version_above(candidate@, current@),
{
    match (semver::Version::parse(candidate), semver::Version::parse(current)) {
        (Ok(candidate), Ok(current)) => Some(candidate > current),
        _ => None,
    }
}

/// How a field of a reply was found.
#[derive(Clone, Debug)]
pub enum Field<T> {
    /// The reply has no such field.
    Missing,
    /// The field holds a value of another type than expected.
    Mistyped,
    /// The field holds this value.
    Found(T),
}

/// What the release service answered when asked for the latest release.
#[derive(Clone, Debug)]
pub struct ReleaseReply {
    /// The status of the answer; 200 where the release was found.
    pub status: u16,
    /// The name of the release, which is its version.
    pub name: Field<String>,
    /// The assets listed with the release.
    pub assets: Field<Vec<AssetEntry>>,
}

/// What is wrong with a reply that cannot be used.
#[derive(Clone, Copy, Debug, PartialEq, Eq, Structural)]
pub enum Malformed {
    NameMissing,
    NameNotText,
    NameNotVersion,
    AssetsMissing,
    AssetsNotList,
}

impl Malformed {
    /// The complaint in words.
    pub open spec fn spec_message(&self) -> Seq<char> {
        match self {
            Malformed::NameMissing => "'name' field missing from release object"@,
            Malformed::NameNotText => "'name' field of release object is not a string"@,
            Malformed::NameNotVersion => "Latest release's name is not a valid semver version!"@,
            Malformed::AssetsMissing => "'assets' field missing from release object"@,
            Malformed::AssetsNotList => "assets field of release object is not an array"@,
        }
    }

    /// The complaint in words.
    pub fn message(&self) -> (text: &'static str)
        ensures
            text@ == self.spec_message(),
    {
        match self {
            Malformed::NameMissing => "'name' field missing from release object",
            Malformed::NameNotText => "'name' field of release object is not a string",
            Malformed::NameNotVersion => "Latest release's name is not a valid semver version!",
            Malformed::AssetsMissing => "'assets' field missing from release object",
            Malformed::AssetsNotList => "assets field of release object is not an array",
        }
    }
}

/// Why a check for an update came to nothing.
#[derive(Clone, Copy, Debug, PartialEq, Eq, Structural)]
pub enum UpdateError {
    /// The release service does not know of a latest release.
    LatestReleaseNotFound,
    /// The service's answer cannot be used.
    InvalidJsonResponse(Malformed),
    /// No asset of the release was built for this platform.
    NoMatchingAsset,
}

/// What a reply calls for, given how the release's version compares with the
/// running one: nothing where the release is not newer, else the download of
/// the asset built for this platform. The reply is examined in this order:
/// its status, the name of the release, whether the name is a version, the
/// list of assets; the first fault found is the one reported.
pub open spec fn spec_plan(reply: ReleaseReply, above: Option<bool>, os: Seq<char>, width: u8) -> Result<
    Option<(Seq<char>, u8, u64)>,
    UpdateError,
> {
    if reply.status != 200 {
        Err(UpdateError::LatestReleaseNotFound)
    } else {
        match reply.name {
            Field::Missing => Err(UpdateError::InvalidJsonResponse(Malformed::NameMissing)),
            Field::Mistyped => Err(UpdateError::InvalidJsonResponse(Malformed::NameNotText)),
            Field::Found(_) => match above {
                None => Err(UpdateError::InvalidJsonResponse(Malformed::NameNotVersion)),
                Some(false) => Ok(None),
                Some(true) => match reply.assets {
                    Field::Missing => Err(
                        UpdateError::InvalidJsonResponse(Malformed::AssetsMissing),
                    ),
                    Field::Mistyped => Err(
                        UpdateError::InvalidJsonResponse(Malformed::AssetsNotList),
                    ),
                    Field::Found(entries) => match spec_pick(entries@, os, width) {
                        Some(described) => Ok(Some(described)),
                        None => Err(UpdateError::NoMatchingAsset),
                    },
                },
            },
        }
    }
}

/// Whether `outcome` is what `planned` describes.
pub open spec fn plan_is(
    outcome: Result<Option<ReleaseAsset>, UpdateError>,
    planned: Result<Option<(Seq<char>, u8, u64)>, UpdateError>,
) -> bool {
    match planned {
        Ok(Some(described)) => outcome matches Ok(Some(found)) && found.is(described),
        Ok(None) => outcome matches Ok(None),
        Err(error) => outcome == Err::<Option<ReleaseAsset>, UpdateError>(error),
    }
}

/// How the release named in `reply` compares with the version `current`, as
/// far as the reply names a release.
pub open spec fn reply_above(reply: ReleaseReply, current: Seq<char>) -> Option<bool> {
    match reply.name {
        Field::Found(name) => version_above(name@, current),
        _ => None,
    }
}

/// Decides what a reply calls for, given how the release's version compares
/// with the running one.
pub fn plan(reply: &ReleaseReply, above: Option<bool>, os: &String, width: u8) -> (outcome: Result<
    Option<ReleaseAsset>,
    UpdateError,
>)
    ensures
        plan_is(outcome, spec_plan(*reply, above, os@, width)),
{
    if reply.status != 200 {
        return Err(UpdateError::LatestReleaseNotFound);
    }
    match &reply.name {
        Field::Missing => {
            return Err(UpdateError::InvalidJsonResponse(Malformed::NameMissing));
        },
        Field::Mistyped => {
            return Err(UpdateError::InvalidJsonResponse(Malformed::NameNotText));
        },
        Field::Found(_) => {},
    }
    match above {
        None => Err(UpdateError::InvalidJsonResponse(Malformed::NameNotVersion)),
        Some(false) => Ok(None),
        Some(true) => match &reply.assets {
            Field::Missing => Err(UpdateError::InvalidJsonResponse(Malformed::AssetsMissing)),
            Field::Mistyped => Err(UpdateError::InvalidJsonResponse(Malformed::AssetsNotList)),
            Field::Found(entries) => match ReleaseAsset::pick(entries, os, width) {
                Some(found) => Ok(Some(found)),
                None => Err(UpdateError::NoMatchingAsset),
            },
        },
    }
}

/// Decides what a reply calls for when the version `current` is running. The
/// release counts as newer only where both its name and `current` read as
/// versions; where either does not, the reply is reported as naming no
/// version.
pub fn check(reply: &ReleaseReply, current: &str, os: &String, width: u8) -> (outcome: Result<
    Option<ReleaseAsset>,
    UpdateError,
>)
    ensures
        plan_is(outcome, spec_plan(*reply, reply_above(*reply, current@), os@, width)),
{
    let above = match &reply.name {
        Field::Found(name) => compare_versions(name.as_str(), current),
        _ => None,
    };
    plan(reply, above, os, width)
}

} // verus!
