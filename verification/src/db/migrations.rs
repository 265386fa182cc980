//! Schema migrations of the SQLite data store.
use vstd::prelude::*;

verus! {

/// The SQL of the migration that makes account passwords nullable and adds
/// the account status column.
pub open spec fn nullable_password_sql() -> Seq<char> {
    r#"
      CREATE TABLE IF NOT EXISTS "accounts2" (
         "user_id" TEXT PRIMARY KEY NOT NULL UNIQUE,
         "password" TEXT NULL,
         "account_status" TEXT NOT NULL CHECK(
             account_status IN ('not_registered', 'registered', 'awaiting_activation'
         ))
      );
      INSERT INTO accounts2 select *, 'registered' FROM accounts;
      DROP TABLE accounts;
      ALTER TABLE accounts2 RENAME TO accounts;
    "#@
}

/// The migration that makes account passwords nullable and adds the
/// account status. SQLite does not really support altering a column, so the
/// table is copied into a new one.
pub fn migration() -> (r: String)
    ensures
        r@ == nullable_password_sql(),
{
    r#"
      CREATE TABLE IF NOT EXISTS "accounts2" (
         "user_id" TEXT PRIMARY KEY NOT NULL UNIQUE,
         "password" TEXT NULL,
         "account_status" TEXT NOT NULL CHECK(
             account_status IN ('not_registered', 'registered', 'awaiting_activation'
         ))
      );
      INSERT INTO accounts2 select *, 'registered' FROM accounts;
      DROP TABLE accounts;
      ALTER TABLE accounts2 RENAME TO accounts;
    "#.to_owned()
}

}
