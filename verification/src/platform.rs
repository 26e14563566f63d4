//! The calls this library makes into the clock, the random generator, the
//! identifier generator and the platform's directory lookup. Their
//! contracts are stated, not proved.

use vstd::prelude::*;

verus! {

/// The lower-case character of one hexadecimal digit.
pub open spec fn hex_digit(value: int) -> char {
    if value == 0 {
        '0'
    } else if value == 1 {
        '1'
    } else if value == 2 {
        '2'
    } else if value == 3 {
        '3'
    } else if value == 4 {
        '4'
    } else if value == 5 {
        '5'
    } else if value == 6 {
        '6'
    } else if value == 7 {
        '7'
    } else if value == 8 {
        '8'
    } else if value == 9 {
        '9'
    } else if value == 10 {
        'a'
    } else if value == 11 {
        'b'
    } else if value == 12 {
        'c'
    } else if value == 13 {
        'd'
    } else if value == 14 {
        'e'
    } else {
        'f'
    }
}

/// The hexadecimal digit of `id` at `place`, counted from the most
/// significant of its thirty-two digits.
pub open spec fn identifier_digit(id: u128, place: int) -> int {
    ((id >> ((4 * (31 - place)) as u128)) & 0xf) as int
}

/// How many hyphens stand before position `at` of a hyphenated rendering.
pub open spec fn hyphens_before(at: int) -> int {
    if at < 8 {
        0
    } else if at < 13 {
        1
    } else if at < 18 {
        2
    } else if at < 23 {
        3
    } else {
        4
    }
}

/// The hyphenated rendering of the identifier with the 128-bit value
/// `id`: its thirty-two lower-case hexadecimal digits, most significant
/// first, in groups of eight, four, four, four and twelve with a hyphen
/// between the groups.
pub open spec fn uuid_hyphenated(id: u128) -> Seq<char> {
    Seq::new(
        36,
        |at: int|
            if at == 8 || at == 13 || at == 18 || at == 23 {
                '-'
            } else {
                hex_digit(identifier_digit(id, at - hyphens_before(at)))
            },
    )
}

/// Whether `text` ends with `suffix`.
pub open spec fn ends_with(text: Seq<char>, suffix: Seq<char>) -> bool {
    text.len() >= suffix.len() && text.subrange(text.len() - suffix.len(), text.len() as int)
        == suffix
}

/// Whether `name` is a plain name of one path component: not empty, not
/// beginning with a dot, and free of separators and colons.
pub open spec fn is_plain_name(name: Seq<char>) -> bool {
    &&& name.len() > 0
    &&& name[0] != '.'
    &&& forall|i: int|
        0 <= i < name.len() ==> #[trigger] name[i] != '/' && name[i] != '\\' && name[i] != ':'
}

/// A reading of the system clock against the Unix epoch.
#[derive(Debug, Clone, Copy, PartialEq, Eq, Structural)]
pub enum EpochReading {
    /// The clock reads the epoch or later: the whole milliseconds since.
    Since(u128),
    /// The clock reads before the epoch.
    Before,
}

/// The identifier that the `uuid` crate parses from `text`, as its 128-bit
/// value, or `None` where it rejects the text.
pub uninterp spec fn uuid_parsed(text: Seq<char>) -> Option<u128>;

/// The bits that mark an identifier as random (version 4, standard variant).
pub open spec fn is_random_identifier(id: u128) -> bool {
    id & 0x0000_0000_0000_f000_c000_0000_0000_0000u128
        == 0x0000_0000_0000_4000_8000_0000_0000_0000u128
}

/// A civil date and time of day in UTC.
#[derive(Debug, Clone, Copy, PartialEq, Eq, Structural)]
pub struct CivilTime {
    /// The calendar year.
    pub year: i32,
    /// The month, from 1.
    pub month: u32,
    /// The day of the month, from 1.
    pub day: u32,
    /// The hour of the day.
    pub hour: u32,
    /// The minute of the hour.
    pub minute: u32,
    /// The second of the minute.
    pub second: u32,
}

impl CivilTime {
    /// Whether every field lies in its calendar range.
    pub open spec fn in_range(&self) -> bool {
        &&& 1 <= self.month <= 12
        &&& 1 <= self.day <= 31
        &&& self.hour <= 23
        &&& self.minute <= 59
        &&& self.second <= 59
    }
}

/// Calls `rand::Rng::gen_range` on the thread's generator with the range
/// from zero up to, not including, `bound`. The contract claims only that
/// the draw lies in that range; the generator rejects an empty range, so
/// `bound` must be positive.
#[verifier::external_body]
pub(crate) fn random_below(bound: u64) -> (draw: u64)
    requires
        bound > 0,
    ensures
        draw < bound,
{
    rand::Rng::gen_range(&mut rand::thread_rng(), 0..bound)
}

/// Calls `rand::random` for 32 bytes. Nothing is claimed of the bytes.
#[verifier::external_body]
pub(crate) fn random_key() -> (key: [u8; 32])
{
    rand::random::<[u8; 32]>()
}

/// Calls `uuid::Uuid::new_v4` and takes the identifier's 128-bit value.
/// The contract claims the version and variant bits that the crate sets on
/// every random identifier, and nothing of the other bits.
#[verifier::external_body]
pub(crate) fn new_identifier() -> (id: u128)
    ensures
        is_random_identifier(id),
{
    uuid::Uuid::new_v4().as_u128()
}

/// Calls `uuid::Uuid::from_u128` and renders the identifier as the crate's
/// `Display` does. The contract claims that the text is the hyphenated
/// lower-case rendering, and that the crate's parser reads the identifier
/// back from it.
#[verifier::external_body]
pub(crate) fn identifier_text(id: u128) -> (text: String)
    ensures
        text@ == uuid_hyphenated(id),
        uuid_parsed(text@) == Some(id),
{
    uuid::Uuid::from_u128(id).to_string()
}

/// Calls `uuid::Uuid::parse_str`. The contract names the outcome: the
/// parsed identifier's 128-bit value, or `None` on the crate's error.
#[verifier::external_body]
pub(crate) fn parse_identifier(text: &str) -> (id: Option<u128>)
    ensures
        id == uuid_parsed(text@),
{
    match uuid::Uuid::parse_str(text) {
        Ok(parsed) => Some(parsed.as_u128()),
        Err(_) => None,
    }
}

/// Calls `std::time::SystemTime::now` and `duration_since` the Unix epoch,
/// and takes the whole milliseconds of the duration. Nothing is claimed of
/// the reading but its shape: a clock before the epoch is told apart.
#[verifier::external_body]
pub(crate) fn epoch_reading() -> (reading: EpochReading)
{
    match std::time::SystemTime::now().duration_since(std::time::UNIX_EPOCH) {
        Ok(elapsed) => EpochReading::Since(elapsed.as_millis()),
        Err(_) => EpochReading::Before,
    }
}

/// Calls `std::time::SystemTime::now`, converts the reading with chrono's
/// `From<SystemTime> for DateTime<Utc>`, which takes a clock before the
/// epoch as a negative instant, and takes the milliseconds since the Unix
/// epoch. Nothing is claimed of the reading. The conversion refuses only
/// an instant outside the years that chrono can hold, some 262 000 either
/// side of the epoch.
#[verifier::external_body]
pub(crate) fn utc_now_millis() -> (millis: i64)
{
    chrono::DateTime::<chrono::Utc>::from(std::time::SystemTime::now()).timestamp_millis()
}

/// Calls `std::time::SystemTime::now`, converts the reading with chrono's
/// `From<SystemTime> for DateTime<Utc>`, and reads the calendar fields
/// through `Datelike` and `Timelike`. The contract claims the ranges that
/// the crate documents for those fields. The conversion refuses only an
/// instant outside the years that chrono can hold.
#[verifier::external_body]
pub(crate) fn utc_now_civil() -> (now: CivilTime)
    ensures
        now.in_range(),
{
    let now = chrono::DateTime::<chrono::Utc>::from(std::time::SystemTime::now());
    CivilTime {
        year: chrono::Datelike::year(&now),
        month: chrono::Datelike::month(&now),
        day: chrono::Datelike::day(&now),
        hour: chrono::Timelike::hour(&now),
        minute: chrono::Timelike::minute(&now),
        second: chrono::Timelike::second(&now),
    }
}

/// Calls `dirs::data_dir`. Nothing is claimed of the answer, which depends
/// on the platform and the environment.
#[verifier::external_body]
pub(crate) fn data_dir() -> (dir: Option<String>)
{
    match dirs::data_dir() {
        Some(path) => Some(path.to_string_lossy().into_owned()),
        None => None,
    }
}

/// Calls `char::to_string`: the text that holds the one character.
#[verifier::external_body]
pub(crate) fn char_text(c: char) -> (text: String)
    ensures
        text@ == seq![c],
{
    c.to_string()
}

/// Calls `std::path::Path::join` and renders the joined path as text.
/// The contract claims that the text ends with `child` where `child` is a
/// plain name, which the join appends; nothing is claimed of what stands
/// before it, whose separator depends on the platform.
#[verifier::external_body]
pub(crate) fn join_path(base: &str, child: &str) -> (joined: String)
    ensures
        is_plain_name(child@) ==> ends_with(joined@, child@),
{
    std::path::Path::new(base).join(child).to_string_lossy().into_owned()
}

} // verus!
