//! The stores of the service: the keys and statements that the settings of
//! a user are read and written with. Talking to the stores is the caller's
//! part.

use vstd::prelude::*;
use vstd::string::*;
use crate::text::{append_decimal, decimal};

verus! {

/// One field of the settings of a user, with its value as JSON text.
#[derive(Debug, Clone)]
pub struct Field {
    pub key: String,
    pub value: String,
}

/// The key of the settings of the user `uid` in the cache.
pub open spec fn setting_key_of(uid: u64) -> Seq<char> {
    "u:"@ + decimal(uid as nat) + ":setting"@
}

/// The statement that reads the settings of a user.
pub open spec fn select_text() -> Seq<char> {
    "SELECT content FROM settings WHERE uid = ? LIMIT 1"@
}

/// The arguments of `JSON_SET` for the first `upto` fields: for each the
/// path of the field in quotes and its value, all separated by commas.
pub open spec fn changes(fields: Seq<Field>, upto: int) -> Seq<char>
    decreases upto,
{
    if upto <= 0 {
        Seq::<char>::empty()
    } else if upto == 1 {
        "'$."@ + fields[0].key@ + "', "@ + fields[0].value@
    } else {
        changes(fields, upto - 1) + ", '$."@ + fields[upto - 1].key@ + "', "@ + fields[upto
            - 1].value@
    }
}

/// The statement that writes the fields of the settings of a user.
pub open spec fn upsert_text(fields: Seq<Field>) -> Seq<char> {
    "INSERT INTO settings (uid, content, event_time) VALUES (?, ?, ?) ON DUPLICATE KEY UPDATE content = JSON_SET(content, "@
        + changes(fields, fields.len() as int) + "), event_time = ?"@
}

/// The cache of settings.
pub struct Cache;

/// The database of settings.
pub struct Database;

/// The stores of the service.
pub struct Repository {
    pub cache: Cache,
    pub db: Database,
}

impl Cache {
    /// The key of the settings of the user `uid`.
    pub fn setting_key(uid: u64) -> (key: String)
        ensures
            key@ == setting_key_of(uid),
    {
        let mut key = String::new();
        key.append("u:");
        append_decimal(&mut key, uid);
        key.append(":setting");
        assert(key@ =~= setting_key_of(uid));
        key
    }
}

impl Database {
    /// The statement that reads the settings of a user.
    pub fn select_statement() -> (sql: &'static str)
        ensures
            sql@ == select_text(),
    {
        "SELECT content FROM settings WHERE uid = ? LIMIT 1"
    }

    /// The statement that writes `fields` into the settings of a user; none
    /// where there is no field to write. Keys and values go into the
    /// statement as they are given.
    pub fn upsert_statement(fields: &Vec<Field>) -> (sql: Option<String>)
        ensures
            sql is Some == (fields.len() > 0),
            sql matches Some(text) ==> text@ == upsert_text(fields@),
    {
        if fields.len() == 0 {
            return None;
        }
        let mut sql = String::new();
        sql.append(
            "INSERT INTO settings (uid, content, event_time) VALUES (?, ?, ?) ON DUPLICATE KEY UPDATE content = JSON_SET(content, ",
        );
        let ghost head = sql@;
        let mut i: usize = 0;
        while i < fields.len()
            invariant
                i <= fields.len(),
                sql@ == head + changes(fields@, i as int),
            decreases fields.len() - i,
        {
            if i > 0 {
                sql.append(", ");
            }
            sql.append("'$.");
            sql.append(fields[i].key.as_str());
            sql.append("', ");
            sql.append(fields[i].value.as_str());
            i = i + 1;
            proof {
                let key = fields@[i - 1].key@;
                let value = fields@[i - 1].value@;
                if i == 1 {
                    assert(sql@ =~= head + ("'$."@ + key + "', "@ + value));
                } else {
                    assert(sql@ =~= head + (changes(fields@, i - 1) + ", '$."@ + key + "', "@
                        + value)) by {
                        lemma_comma(head + changes(fields@, i - 1), key, value, sql@);
                    }
                }
            }
        }
        sql.append("), event_time = ?");
        assert(sql@ =~= upsert_text(fields@));
        Some(sql)
    }
}

proof fn lemma_comma(before: Seq<char>, key: Seq<char>, value: Seq<char>, after: Seq<char>)
    requires
        after == before + ", "@ + "'$."@ + key + "', "@ + value,
    ensures
        after == before + ", '$."@ + key + "', "@ + value,
{
    reveal_strlit(", ");
    reveal_strlit("'$.");
    reveal_strlit(", '$.");
    assert(", "@ + "'$."@ =~= ", '$."@);
    assert(after =~= before + (", "@ + "'$."@) + key + "', "@ + value);
}

} // verus!
