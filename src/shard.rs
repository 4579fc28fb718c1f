//! Shard metadata: the catalog record of one shard, and how a fresh one is named.
use vstd::prelude::*;

verus! {

/// The catalog record of one shard.
///
/// `timestamp` is the shard's creation instant in seconds since the Unix epoch
/// (UTC); `storage_key` is where its snapshot lives in the object store.
#[derive(Debug)]
pub struct ShardMetadata {
    pub name: String,
    pub id: String,
    pub storage_key: String,
    pub timestamp: i64,
}

impl Clone for ShardMetadata {
    fn clone(&self) -> (r: Self)
        ensures
            r == *self,
    {
        ShardMetadata {
            name: self.name.clone(),
            id: self.id.clone(),
            storage_key: self.storage_key.clone(),
            timestamp: self.timestamp,
        }
    }
}

/// The UTC minute of `secs` as `YYYY-MM-DD_HH_MM`.
pub uninterp spec fn minute_stamp_of(secs: int) -> Seq<char>;

/// First instant of the calendar range, `time::UtcDateTime::MIN`
/// (-9999-01-01 00:00:00 UTC).
pub const EARLIEST_INSTANT: i64 = -377705116800;

/// Last instant of the calendar range, `time::UtcDateTime::MAX`
/// (9999-12-31 23:59:59 UTC).
pub const LATEST_INSTANT: i64 = 253402300799;

/// Relies on `time::UtcDateTime::from_unix_timestamp`, which succeeds exactly
/// from `UtcDateTime::MIN` to `UtcDateTime::MAX` (the range it checks against), and `UtcDateTime::format` with the description
/// `[year]-[month]-[day]_[hour]_[minute]`, which cannot fail into a `String`:
/// the text depends on the instant alone.
#[verifier::external_body]
fn minute_stamp(secs: i64) -> (r: Option<String>)
    ensures
        r matches Some(s) ==> s@ == minute_stamp_of(secs as int),
        EARLIEST_INSTANT <= secs <= LATEST_INSTANT ==> r is Some,
{
    let format = time::format_description::parse("[year]-[month]-[day]_[hour]_[minute]").ok()?;
    time::UtcDateTime::from_unix_timestamp(secs).ok()?.format(&format).ok()
}

/// `c` is a lower-case hexadecimal digit.
pub open spec fn is_hex_digit(c: char) -> bool {
    ('0' <= c && c <= '9') || ('a' <= c && c <= 'f')
}

/// `s` is the hyphenated lower-case text of a version 4 UUID:
/// `xxxxxxxx-xxxx-4xxx-Vxxx-xxxxxxxxxxxx` with `V` one of `8`, `9`, `a`, `b`.
pub open spec fn is_uuid_v4_text(s: Seq<char>) -> bool {
    &&& s.len() == 36
    &&& forall|i: int|
        0 <= i < 36 ==> if i == 8 || i == 13 || i == 18 || i == 23 {
            s[i] == '-'
        } else {
            is_hex_digit(s[i])
        }
    &&& s[14] == '4'
    &&& (s[19] == '8' || s[19] == '9' || s[19] == 'a' || s[19] == 'b')
}

/// Relies on `uuid::Uuid::new_v4`, which sets the version nibble to 4 and the
/// variant bits to `10`, and on its `Display`, the hyphenated lower-case hex
/// form: a fresh random identifier.
#[verifier::external_body]
pub(crate) fn new_id() -> (r: String)
    ensures
        is_uuid_v4_text(r@),
{
    uuid::Uuid::new_v4().to_string()
}

/// The object-store key of a shard: `<name>.<stamp>.<id>.db`.
pub open spec fn storage_key_of(name: Seq<char>, stamp: Seq<char>, id: Seq<char>) -> Seq<char> {
    name + "."@ + stamp + "."@ + id + ".db"@
}

/// Builds the object-store key of a shard from its name, creation minute and id.
pub fn storage_key_for(name: &str, stamp: &str, id: &str) -> (r: String)
    ensures
        r@ == storage_key_of(name@, stamp@, id@),
{
    let mut key = String::from_str(name);
    key.append(".");
    key.append(stamp);
    key.append(".");
    key.append(id);
    key.append(".db");
    key
}

impl ShardMetadata {
    /// The record of a shard named `name` with id `id`, created at `created`
    /// (seconds since the epoch) whose minute reads `stamp`.
    pub fn describe(name: &str, id: &str, stamp: &str, created: i64) -> (r: ShardMetadata)
        ensures
            r.name@ == name@,
            r.id@ == id@,
            r.storage_key@ == storage_key_of(name@, stamp@, id@),
            r.timestamp == created,
    {
        ShardMetadata {
            name: String::from_str(name),
            id: String::from_str(id),
            storage_key: storage_key_for(name, stamp, id),
            timestamp: created,
        }
    }

    /// The record of a fresh shard of the `logs` stream created at `created`: a new random id
    /// and the key built from it. `None` exactly where `created` lies outside
    /// the calendar range.
    pub fn fresh(created: i64) -> (r: Option<ShardMetadata>)
        ensures
            (r is Some) == (EARLIEST_INSTANT <= created <= LATEST_INSTANT),
            r matches Some(m) ==> {
                &&& m.name@ == "logs"@
                &&& is_uuid_v4_text(m.id@)
                &&& m.storage_key@ == storage_key_of("logs"@, minute_stamp_of(created as int), m.id@)
                &&& m.timestamp == created
            },
    {
        if created < EARLIEST_INSTANT || created > LATEST_INSTANT {
            return None;
        }
        let stamp = minute_stamp(created)?;
        let id = new_id();
        Some(ShardMetadata::describe("logs", id.as_str(), stamp.as_str(), created))
    }
}

} // verus!
