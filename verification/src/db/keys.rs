//! Keys of user variables in the key-value store, and the little-endian
//! encoding of the numbers stored under them.
use vstd::prelude::*;
use vstd::string::StringSliceAdditionalSpecFns;
use vstd::utf8::{decode_utf8, encode_utf8, valid_utf8};

verus! {

/// Errors of reading or changing stored data.
#[derive(Debug, Clone, PartialEq, Eq)]
pub enum DataError {
    KeyDoesNotExist(String),
    TooManyEntries,
    I32SchemaViolation,
    InvalidValue,
}

/// Request something by a username and room ID.
pub struct UserAndRoom<'a>(pub &'a str, pub &'a str);

/// The key of a user in a room: the user's bytes, `0xfe`, and the room's
/// bytes.
pub open spec fn user_and_room_key(user: Seq<u8>, room: Seq<u8>) -> Seq<u8> {
    user + seq![0xfeu8] + room
}

fn push_bytes(out: &mut Vec<u8>, bytes: &[u8])
    ensures
        final(out)@ == old(out)@ + bytes@,
{
    let mut i: usize = 0;
    while i < bytes.len()
        invariant
            i <= bytes@.len(),
            out@ == old(out)@ + bytes@.take(i as int),
        decreases bytes@.len() - i,
    {
        out.push(bytes[i]);
        proof {
            assert(bytes@.take(i + 1) =~= bytes@.take(i as int).push(bytes@[i as int]));
        }
        i = i + 1;
    }
    proof {
        assert(bytes@.take(i as int) =~= bytes@);
    }
}

impl<'a> UserAndRoom<'a> {
    /// The key of the user in the room.
    pub fn to_vec(&self) -> (r: Vec<u8>)
        ensures
            r@ == user_and_room_key(self.0.spec_bytes(), self.1.spec_bytes()),
    {
        let mut bytes: Vec<u8> = Vec::new();
        push_bytes(&mut bytes, self.0.as_bytes());
        bytes.push(0xfe);
        push_bytes(&mut bytes, self.1.as_bytes());
        proof {
            assert(bytes@ =~= user_and_room_key(self.0.spec_bytes(), self.1.spec_bytes()));
        }
        bytes
    }
}

/// The unsigned value of four bytes, least significant first.
pub open spec fn le_u32(b: Seq<u8>) -> int {
    b[0] + 256 * b[1] + 65536 * b[2] + 16777216 * b[3]
}

/// The `i32` whose two's complement bits are those of the unsigned `v`.
pub open spec fn to_i32(v: int) -> int {
    if v >= 0x8000_0000 {
        v - 0x1_0000_0000
    } else {
        v
    }
}

/// The stored form of an `i32`: its four little-endian bytes.
pub open spec fn i32_bytes(v: i32) -> Seq<u8> {
    let u: int = if v < 0 { v + 0x1_0000_0000 } else { v as int };
    seq![(u % 256) as u8, ((u / 256) % 256) as u8, ((u / 65536) % 256) as u8, (u / 16777216) as u8]
}

/// Convert bytes to an i32. An error is returned if the bytes do not
/// represent an i32: there must be exactly four of them.
pub fn convert_i32(raw_value: &[u8]) -> (r: Result<i32, DataError>)
    ensures
        raw_value@.len() == 4 ==> r == Ok::<i32, DataError>(to_i32(le_u32(raw_value@)) as i32),
        raw_value@.len() != 4 ==> r == Err::<i32, DataError>(DataError::I32SchemaViolation),
{
    if raw_value.len() != 4 {
        return Err(DataError::I32SchemaViolation);
    }
    let v: u64 = raw_value[0] as u64 + 256 * (raw_value[1] as u64) + 65536 * (raw_value[2] as u64)
        + 16777216 * (raw_value[3] as u64);
    if v >= 0x8000_0000 {
        Ok((v as i64 - 0x1_0000_0000i64) as i32)
    } else {
        Ok(v as i32)
    }
}

/// Convert bytes to a u32. An error is returned if there are not exactly
/// four of them.
pub fn convert_u32(raw_value: &[u8]) -> (r: Result<u32, DataError>)
    ensures
        raw_value@.len() == 4 ==> r == Ok::<u32, DataError>(le_u32(raw_value@) as u32),
        raw_value@.len() != 4 ==> r == Err::<u32, DataError>(DataError::I32SchemaViolation),
{
    if raw_value.len() != 4 {
        return Err(DataError::I32SchemaViolation);
    }
    let v: u64 = raw_value[0] as u64 + 256 * (raw_value[1] as u64) + 65536 * (raw_value[2] as u64)
        + 16777216 * (raw_value[3] as u64);
    Ok(v as u32)
}

/// The unsigned value of eight bytes, most significant first.
pub open spec fn be_u64(b: Seq<u8>) -> int
    decreases b.len(),
{
    if b.len() == 0 {
        0
    } else {
        be_u64(b.drop_last()) * 256 + b.last()
    }
}

/// Convert bytes to a u64, stored big-endian. An error is returned if
/// there are not exactly eight of them.
pub fn convert_u64(raw_value: &[u8]) -> (r: Result<u64, DataError>)
    ensures
        raw_value@.len() == 8 ==> r == Ok::<u64, DataError>(be_u64(raw_value@) as u64),
        raw_value@.len() != 8 ==> r == Err::<u64, DataError>(DataError::I32SchemaViolation),
{
    if raw_value.len() != 8 {
        return Err(DataError::I32SchemaViolation);
    }
    let mut v: u64 = 0;
    let mut i: usize = 0;
    while i < 8
        invariant
            i <= 8,
            raw_value@.len() == 8,
            v == be_u64(raw_value@.take(i as int)),
            v < pow256(i as nat),
        decreases 8 - i,
    {
        proof {
            assert(raw_value@.take(i + 1).drop_last() =~= raw_value@.take(i as int));
            assert(pow256((i + 1) as nat) == pow256(i as nat) * 256);
            assert(v * 256 + raw_value@[i as int] < pow256((i + 1) as nat)) by (nonlinear_arith)
                requires
                    v < pow256(i as nat),
                    raw_value@[i as int] < 256,
                    pow256((i + 1) as nat) == pow256(i as nat) * 256,
            ;
            assert(pow256(8) == 0x1_0000_0000_0000_0000) by {
                reveal_with_fuel(pow256, 9);
            }
            lemma_pow256_monotone((i + 1) as nat, 8);
        }
        v = v * 256 + raw_value[i] as u64;
        i = i + 1;
    }
    proof {
        assert(raw_value@.take(8) =~= raw_value@);
    }
    Ok(v)
}

/// 256 to the power `n`.
pub open spec fn pow256(n: nat) -> int
    decreases n,
{
    if n == 0 {
        1
    } else {
        pow256((n - 1) as nat) * 256
    }
}

proof fn lemma_pow256_monotone(a: nat, b: nat)
    requires
        a <= b,
    ensures
        pow256(a) <= pow256(b),
        pow256(a) >= 1,
    decreases b,
{
    if a < b {
        lemma_pow256_monotone(a, (b - 1) as nat);
    } else if a > 0 {
        lemma_pow256_monotone((a - 1) as nat, (a - 1) as nat);
    }
}

/// The stored form of an `i32`, as [`i32_bytes`] states.
pub fn i32_to_bytes(v: i32) -> (r: Vec<u8>)
    ensures
        r@ == i32_bytes(v),
{
    let u: u64 = if v < 0 {
        (v as i64 + 0x1_0000_0000i64) as u64
    } else {
        v as u64
    };
    let mut r: Vec<u8> = Vec::new();
    r.push((u % 256) as u8);
    r.push(((u / 256) % 256) as u8);
    r.push(((u / 65536) % 256) as u8);
    r.push((u / 16777216) as u8);
    r
}

/// The variable count after changing it by `amount`: the stored count (0
/// when there is none) plus the amount, but never below 0.
pub fn altered_count(stored: Option<i32>, amount: i32) -> (r: i32)
    requires
        stored matches Some(c) ==> i32::MIN <= c + amount <= i32::MAX,
    ensures
        r == (match stored {
            Some(c) => if c + amount < 0 {
                0
            } else {
                c + amount
            },
            None => if amount < 0 {
                0
            } else {
                amount as int
            },
        }),
{
    let new_count = match stored {
        Some(c) => c + amount,
        None => amount,
    };
    if new_count < 0 {
        0
    } else {
        new_count
    }
}


/// A stored `i32` reads back as the same number: decoding the four bytes
/// that encode `v` gives `v`.
pub proof fn lemma_i32_round_trip(v: i32)
    ensures
        i32_bytes(v).len() == 4,
        to_i32(le_u32(i32_bytes(v))) == v,
{
    let u: int = if v < 0 { v + 0x1_0000_0000 } else { v as int };
    assert(0 <= u < 0x1_0000_0000);
    let b = i32_bytes(v);
    assert(b[0] == u % 256);
    assert(b[1] == (u / 256) % 256);
    assert(b[2] == (u / 65536) % 256);
    assert(b[3] == u / 16777216) by {
        assert(u / 16777216 < 256) by (nonlinear_arith)
            requires
                0 <= u < 0x1_0000_0000,
        ;
    }
    assert(u % 256 + 256 * ((u / 256) % 256) + 65536 * ((u / 65536) % 256) + 16777216 * (u
        / 16777216) == u) by (nonlinear_arith)
        requires
            0 <= u,
    {
        assert(u == 256 * (u / 256) + u % 256);
        assert(u / 256 == 256 * ((u / 256) / 256) + (u / 256) % 256);
        assert((u / 256) / 256 == u / 65536);
        assert(u / 65536 == 256 * ((u / 65536) / 256) + (u / 65536) % 256);
        assert((u / 65536) / 256 == u / 16777216);
    }
}


/// The message of a data error.
pub open spec fn data_error_text(e: DataError) -> Seq<char> {
    match e {
        DataError::KeyDoesNotExist(k) => "value does not exist for key: "@ + k@,
        DataError::TooManyEntries => "too many entries"@,
        DataError::I32SchemaViolation => "expected i32, but i32 schema was violated"@,
        DataError::InvalidValue => "unexpected or corruptd data bytes"@,
    }
}

impl DataError {
    /// The message shown for the error.
    pub fn message(&self) -> (r: String)
        ensures
            r@ == data_error_text(*self),
    {
        let mut out = String::new();
        match self {
            DataError::KeyDoesNotExist(k) => {
                out.append("value does not exist for key: ");
                out.append(k.as_str());
            },
            DataError::TooManyEntries => out.append("too many entries"),
            DataError::I32SchemaViolation => out.append("expected i32, but i32 schema was violated"),
            DataError::InvalidValue => out.append("unexpected or corruptd data bytes"),
        }
        out
    }
}


/// The key of `key_name` in `keyspace`: the two joined by a colon.
pub open spec fn keyspace_key(keyspace: Seq<u8>, key_name: Seq<u8>) -> Seq<u8> {
    keyspace + seq![0x3au8] + key_name
}

/// The key of `key_name` in `keyspace`, as [`keyspace_key`] states.
pub fn to_key(keyspace: &str, key_name: &str) -> (r: Vec<u8>)
    ensures
        r@ == keyspace_key(keyspace.spec_bytes(), key_name.spec_bytes()),
{
    let mut key: Vec<u8> = Vec::new();
    push_bytes(&mut key, keyspace.as_bytes());
    key.push(0x3a);
    push_bytes(&mut key, key_name.as_bytes());
    proof {
        assert(key@ =~= keyspace_key(keyspace.spec_bytes(), key_name.spec_bytes()));
    }
    key
}

/// The key of `key_name` in the metadata keyspace.
pub fn metadata_key(key_name: &str) -> (r: Vec<u8>)
    ensures
        r@ == keyspace_key("metadata".spec_bytes(), key_name.spec_bytes()),
{
    to_key("metadata", key_name)
}


/// A user variable as stored under the first key layout: room, user,
/// variable name and the stored value bytes.
pub struct UserVariableEntry {
    pub room_id: String,
    pub username: String,
    pub variable_name: String,
    pub value: Vec<u8>,
}

/// The key of a variable in the earliest layout: room ID, username and
/// variable name run together.
pub fn v0_variable_key(room_id: &str, username: &str, variable_name: &str) -> (r: Vec<u8>)
    ensures
        r@ == room_id.spec_bytes() + username.spec_bytes() + variable_name.spec_bytes(),
{
    let mut key: Vec<u8> = Vec::new();
    push_bytes(&mut key, room_id.as_bytes());
    push_bytes(&mut key, username.as_bytes());
    push_bytes(&mut key, variable_name.as_bytes());
    key
}

/// The key of a variable under `prefix` whose room and user are separated
/// by `delimiter` and whose user and variable name by `0xff`.
pub open spec fn variable_key(prefix: Seq<u8>, delimiter: u8, e: UserVariableEntry) -> Seq<u8> {
    names_key(prefix, delimiter, e.room_id@, e.username@, e.variable_name@)
}

/// The key under `prefix` of the variable `var` of `user` in `room`, with
/// `delimiter` between room and user and `0xff` between user and variable.
pub open spec fn names_key(prefix: Seq<u8>, delimiter: u8, room: Seq<char>, user: Seq<char>, var: Seq<char>) -> Seq<u8> {
    prefix + encode_utf8(room) + seq![delimiter] + encode_utf8(user) + seq![0xffu8] + encode_utf8(var)
}

fn variable_key_exec(prefix: &[u8], delimiter: u8, insert: &UserVariableEntry) -> (r: Vec<u8>)
    ensures
        r@ == variable_key(prefix@, delimiter, *insert),
{
    let mut key: Vec<u8> = Vec::new();
    push_bytes(&mut key, prefix);
    push_bytes(&mut key, insert.room_id.as_str().as_bytes());
    key.push(delimiter);
    push_bytes(&mut key, insert.username.as_str().as_bytes());
    key.push(0xff);
    push_bytes(&mut key, insert.variable_name.as_str().as_bytes());
    proof {
        assert(key@ =~= variable_key(prefix@, delimiter, *insert));
    }
    key
}

/// Create an old key, where the room and user are separated by `0xff`.
pub fn create_old_key(prefix: &[u8], insert: &UserVariableEntry) -> (r: Vec<u8>)
    ensures
        r@ == variable_key(prefix@, 0xff, *insert),
{
    variable_key_exec(prefix, 0xff, insert)
}

/// Create a new key, where the room and user are separated by `0xfe`.
pub fn create_new_key(prefix: &[u8], insert: &UserVariableEntry) -> (r: Vec<u8>)
    ensures
        r@ == variable_key(prefix@, 0xfe, *insert),
{
    variable_key_exec(prefix, 0xfe, insert)
}


/// Errors of migrating stored data to a newer layout.
#[derive(Debug, Clone, PartialEq, Eq)]
pub enum MigrationError {
    MigrationFailed(String),
}

/// The text of UTF-8 bytes, when they are valid UTF-8.
pub open spec fn utf8_text(bytes: Seq<u8>) -> Option<Seq<char>> {
    if valid_utf8(bytes) {
        Some(decode_utf8(bytes))
    } else {
        None
    }
}

/// Calls `std::str::from_utf8`, which accepts exactly the valid UTF-8 byte
/// sequences and decodes them, and copies the text into a `String`.
#[verifier::external_body]
fn from_utf8(bytes: &[u8]) -> (r: Option<String>)
    ensures
        match utf8_text(bytes@) {
            Some(t) => r matches Some(s) && s@ == t,
            None => r is None,
        },
{
    std::str::from_utf8(bytes).ok().map(|s| s.to_owned())
}

/// The first position at or after `i` that holds `b`, or the length.
pub open spec fn find_byte(s: Seq<u8>, b: u8, i: int) -> int
    decreases s.len() - i,
{
    if i < 0 || i >= s.len() {
        if i < 0 { 0 } else { i }
    } else if s[i] == b {
        i
    } else {
        find_byte(s, b, i + 1)
    }
}

/// The parts of `s` from position `i` between the bytes `b`, as
/// `<[u8]>::split` gives them: one more part than there are `b`s.
pub open spec fn split_from(s: Seq<u8>, b: u8, i: int) -> Seq<Seq<u8>>
    decreases s.len() - i,
{
    let k = find_byte(s, b, i);
    if 0 <= i <= k < s.len() {
        seq![s.subrange(i, k)] + split_from(s, b, k + 1)
    } else {
        seq![s.subrange(i, s.len() as int)]
    }
}

proof fn lemma_find_byte(s: Seq<u8>, b: u8, i: int)
    requires
        0 <= i <= s.len(),
    ensures
        i <= find_byte(s, b, i) <= s.len(),
        find_byte(s, b, i) < s.len() ==> s[find_byte(s, b, i)] == b,
    decreases s.len() - i,
{
    if i < s.len() && s[i] != b {
        lemma_find_byte(s, b, i + 1);
    }
}

fn find_byte_exec(s: &[u8], b: u8, i: usize) -> (r: usize)
    requires
        i <= s@.len(),
    ensures
        r == find_byte(s@, b, i as int),
{
    let mut k = i;
    while k < s.len() && s[k] != b
        invariant
            i <= k <= s@.len(),
            find_byte(s@, b, i as int) == find_byte(s@, b, k as int),
        decreases s@.len() - k,
    {
        k = k + 1;
    }
    k
}

fn sub_bytes(s: &[u8], from: usize, to: usize) -> (r: Vec<u8>)
    requires
        from <= to <= s@.len(),
    ensures
        r@ == s@.subrange(from as int, to as int),
{
    let mut r: Vec<u8> = Vec::new();
    let mut k = from;
    while k < to
        invariant
            from <= k <= to <= s@.len(),
            r@ == s@.subrange(from as int, k as int),
        decreases to - k,
    {
        r.push(s[k]);
        k = k + 1;
        assert(r@ =~= s@.subrange(from as int, k as int));
    }
    r
}

/// The parts of `s` between the bytes `b`.
fn split_bytes(s: &[u8], b: u8) -> (r: Vec<Vec<u8>>)
    ensures
        r@.map_values(|p: Vec<u8>| p@) == split_from(s@, b, 0),
{
    let mut parts: Vec<Vec<u8>> = Vec::new();
    let mut i: usize = 0;
    loop
        invariant
            i <= s@.len(),
            split_from(s@, b, 0) == parts@.map_values(|p: Vec<u8>| p@) + split_from(s@, b, i as int),
        decreases s@.len() - i,
    {
        let k = find_byte_exec(s, b, i);
        proof {
            lemma_find_byte(s@, b, i as int);
        }
        let part = sub_bytes(s, i, k);
        let ghost before = parts@.map_values(|p: Vec<u8>| p@);
        parts.push(part);
        proof {
            assert(parts@.map_values(|p: Vec<u8>| p@) =~= before.push(s@.subrange(i as int, k as int)));
        }
        if k == s.len() {
            proof {
                assert(split_from(s@, b, i as int) == seq![s@.subrange(i as int, k as int)]);
                assert(before + seq![s@.subrange(i as int, k as int)] =~= parts@.map_values(
                    |p: Vec<u8>| p@,
                ));
            }
            return parts;
        }
        proof {
            assert(before + split_from(s@, b, i as int) =~= parts@.map_values(|p: Vec<u8>| p@)
                + split_from(s@, b, k + 1));
        }
        i = k + 1;
    }
}

/// The room, user and variable name of a key of the second layout: four
/// parts separated by `0xff` (a prefix, then the three names), the names
/// being valid UTF-8.
pub open spec fn v1_key_names(key: Seq<u8>) -> Option<(Seq<char>, Seq<char>, Seq<char>)> {
    let parts = split_from(key, 0xff, 0);
    if parts.len() == 4 {
        match (utf8_text(parts[1]), utf8_text(parts[2]), utf8_text(parts[3])) {
            (Some(room), Some(user), Some(var)) => Some((room, user, var)),
            _ => None,
        }
    } else {
        None
    }
}

/// Read the room, user and variable name from a key of the second layout;
/// a key that does not have four parts with valid UTF-8 names is refused.
pub fn parse_v1_key(key: &[u8]) -> (r: Result<(String, String, String), MigrationError>)
    ensures
        match v1_key_names(key@) {
            Some((room, user, var)) => r matches Ok((a, b, c)) && a@ == room && b@ == user && c@ == var,
            None => r matches Err(MigrationError::MigrationFailed(m)) && m@
                == "a key violates utf8 schema"@,
        },
{
    let parts = split_bytes(key, 0xff);
    if parts.len() != 4 {
        return Err(MigrationError::MigrationFailed("a key violates utf8 schema".to_owned()));
    }
    let room = from_utf8(parts[1].as_slice());
    let user = from_utf8(parts[2].as_slice());
    let var = from_utf8(parts[3].as_slice());
    match (room, user, var) {
        (Some(room), Some(user), Some(var)) => Ok((room, user, var)),
        _ => Err(MigrationError::MigrationFailed("a key violates utf8 schema".to_owned())),
    }
}

/// The variable stored under a key of the second layout with the value
/// bytes `value`.
pub fn extract_v1_entry(key: &[u8], value: Vec<u8>) -> (r: Result<UserVariableEntry, MigrationError>)
    ensures
        match v1_key_names(key@) {
            Some((room, user, var)) => r matches Ok(e) && e.room_id@ == room && e.username@ == user
                && e.variable_name@ == var && e.value@ == value@,
            None => r matches Err(MigrationError::MigrationFailed(m)) && m@
                == "a key violates utf8 schema"@,
        },
{
    match parse_v1_key(key) {
        Ok((room_id, username, variable_name)) => Ok(
            UserVariableEntry { room_id, username, variable_name, value },
        ),
        Err(e) => Err(e),
    }
}

/// The room and user of a key of the second layout.
pub fn room_and_user_of_key(key: &[u8]) -> (r: Result<(String, String), MigrationError>)
    ensures
        match v1_key_names(key@) {
            Some((room, user, _)) => r matches Ok((a, b)) && a@ == room && b@ == user,
            None => r matches Err(MigrationError::MigrationFailed(m)) && m@
                == "a key violates utf8 schema"@,
        },
{
    match parse_v1_key(key) {
        Ok((room_id, username, _)) => Ok((room_id, username)),
        Err(e) => Err(e),
    }
}


/// One change to the store: remove a key, or insert a value under a key.
#[derive(Debug, Clone, PartialEq, Eq)]
pub enum BatchOp {
    Remove(Vec<u8>),
    Insert(Vec<u8>, Vec<u8>),
}

/// A change to the store, with keys and values as byte sequences.
pub enum BatchOpModel {
    Remove(Seq<u8>),
    Insert(Seq<u8>, Seq<u8>),
}

impl BatchOp {
    pub open spec fn view(&self) -> BatchOpModel {
        match self {
            BatchOp::Remove(k) => BatchOpModel::Remove(k@),
            BatchOp::Insert(k, v) => BatchOpModel::Insert(k@, v@),
        }
    }
}

/// The changes as byte sequences.
pub open spec fn batch_view(ops: Seq<BatchOp>) -> Seq<BatchOpModel> {
    ops.map_values(|op: BatchOp| op@)
}

/// The changes that move variables from the second key layout to the
/// third: for each variable in order, remove its key with `0xff` between
/// room and user, and insert its value under the key with `0xfe` there.
pub open spec fn migration_ops(prefix: Seq<u8>, entries: Seq<UserVariableEntry>) -> Seq<BatchOpModel>
    decreases entries.len(),
{
    if entries.len() == 0 {
        Seq::empty()
    } else {
        let e = entries.last();
        migration_ops(prefix, entries.drop_last()).push(
            BatchOpModel::Remove(variable_key(prefix, 0xff, e)),
        ).push(BatchOpModel::Insert(variable_key(prefix, 0xfe, e), e.value@))
    }
}

/// The batch of changes that moves the variables `entries`, read from
/// under `prefix`, from the second key layout to the third.
pub fn migration_batch(prefix: &[u8], entries: &[UserVariableEntry]) -> (r: Vec<BatchOp>)
    ensures
        batch_view(r@) == migration_ops(prefix@, entries@),
{
    let mut batch: Vec<BatchOp> = Vec::new();
    let mut i: usize = 0;
    while i < entries.len()
        invariant
            i <= entries@.len(),
            batch_view(batch@) == migration_ops(prefix@, entries@.take(i as int)),
        decreases entries@.len() - i,
    {
        let old_key = create_old_key(prefix, &entries[i]);
        let new_key = create_new_key(prefix, &entries[i]);
        let mut value: Vec<u8> = Vec::new();
        push_bytes(&mut value, entries[i].value.as_slice());
        let ghost before = batch@;
        batch.push(BatchOp::Remove(old_key));
        batch.push(BatchOp::Insert(new_key, value));
        proof {
            assert(entries@.take(i + 1).drop_last() =~= entries@.take(i as int));
            assert(entries@.take(i + 1).last() == entries@[i as int]);
            assert(value@ =~= entries@[i as int].value@);
            assert(batch_view(batch@) =~= batch_view(before).push(batch@[before.len() as int]@).push(
                batch@[before.len() as int + 1]@,
            ));
        }
        i = i + 1;
    }
    proof {
        assert(entries@.take(i as int) =~= entries@);
    }
    batch
}


/// The keys and values read from the store, as byte sequences.
pub open spec fn scanned_view(scanned: Seq<(Vec<u8>, Vec<u8>)>) -> Seq<(Seq<u8>, Seq<u8>)> {
    scanned.map_values(|p: (Vec<u8>, Vec<u8>)| (p.0@, p.1@))
}

/// The changes that move every variable read from the store to the third
/// key layout, in order: for each, remove its key of the second layout and
/// insert its value under the new key. Nothing when any key is not a key
/// of the second layout.
pub open spec fn scan_migration_ops(prefix: Seq<u8>, scanned: Seq<(Seq<u8>, Seq<u8>)>) -> Option<
    Seq<BatchOpModel>,
>
    decreases scanned.len(),
{
    if scanned.len() == 0 {
        Some(Seq::empty())
    } else {
        match (scan_migration_ops(prefix, scanned.drop_last()), v1_key_names(scanned.last().0)) {
            (Some(ops), Some((room, user, var))) => Some(
                ops.push(BatchOpModel::Remove(names_key(prefix, 0xff, room, user, var))).push(
                    BatchOpModel::Insert(names_key(prefix, 0xfe, room, user, var), scanned.last().1),
                ),
            ),
            _ => None,
        }
    }
}

/// The changes exist exactly when every key read is a key of the second
/// layout.
pub proof fn lemma_scan_migration_all_or_nothing(prefix: Seq<u8>, scanned: Seq<(Seq<u8>, Seq<u8>)>)
    ensures
        scan_migration_ops(prefix, scanned) is Some <==> forall|i: int|
            0 <= i < scanned.len() ==> #[trigger] v1_key_names(scanned[i].0) is Some,
    decreases scanned.len(),
{
    if scanned.len() > 0 {
        let t = scanned.drop_last();
        lemma_scan_migration_all_or_nothing(prefix, t);
        if forall|i: int| 0 <= i < scanned.len() ==> #[trigger] v1_key_names(scanned[i].0) is Some {
            assert forall|i: int| 0 <= i < t.len() implies #[trigger] v1_key_names(t[i].0) is Some by {
                assert(t[i] == scanned[i]);
            }
            assert(v1_key_names(scanned[scanned.len() - 1].0) is Some);
        } else {
            let i = choose|i: int| 0 <= i < scanned.len() && !(#[trigger] v1_key_names(scanned[i].0) is Some);
            if i < t.len() {
                assert(t[i] == scanned[i]);
            }
        }
    }
}

/// The batch that moves every variable read from the store (its keys and
/// values, read from under `prefix`) from the second key layout to the
/// third; refused with the error of the first key that is not of the
/// second layout, so that either every variable moves or none does.
pub fn migration_batch_from_scan(prefix: &[u8], scanned: &[(Vec<u8>, Vec<u8>)]) -> (r: Result<Vec<BatchOp>, MigrationError>)
    ensures
        match scan_migration_ops(prefix@, scanned_view(scanned@)) {
            Some(ops) => r matches Ok(b) && batch_view(b@) == ops,
            None => r matches Err(MigrationError::MigrationFailed(m)) && m@
                == "a key violates utf8 schema"@,
        },
        r is Ok <==> forall|i: int|
            0 <= i < scanned@.len() ==> #[trigger] v1_key_names(scanned@[i].0@) is Some,
{
    let ghost all = scanned_view(scanned@);
    proof {
        lemma_scan_migration_all_or_nothing(prefix@, all);
        assert forall|i: int| 0 <= i < scanned@.len() implies #[trigger] all[i].0 == scanned@[i].0@ by {}
        assert((forall|i: int| 0 <= i < all.len() ==> #[trigger] v1_key_names(all[i].0) is Some) <==> (
        forall|i: int| 0 <= i < scanned@.len() ==> #[trigger] v1_key_names(scanned@[i].0@) is Some)) by {
            if forall|i: int| 0 <= i < all.len() ==> #[trigger] v1_key_names(all[i].0) is Some {
                assert forall|i: int| 0 <= i < scanned@.len() implies #[trigger] v1_key_names(
                    scanned@[i].0@,
                ) is Some by {
                    assert(v1_key_names(all[i].0) is Some);
                }
            }
            if forall|i: int| 0 <= i < scanned@.len() ==> #[trigger] v1_key_names(scanned@[i].0@) is Some {
                assert forall|i: int| 0 <= i < all.len() implies #[trigger] v1_key_names(all[i].0) is Some by {
                    assert(v1_key_names(scanned@[i].0@) is Some);
                }
            }
        }
    }
    let mut batch: Vec<BatchOp> = Vec::new();
    let mut i: usize = 0;
    while i < scanned.len()
        invariant
            i <= scanned@.len(),
            all == scanned_view(scanned@),
            scan_migration_ops(prefix@, all.take(i as int)) matches Some(ops) && batch_view(batch@) == ops,
        decreases scanned@.len() - i,
    {
        proof {
            assert(all.take(i + 1).drop_last() =~= all.take(i as int));
            assert(all.take(i + 1).last() == all[i as int]);
            assert(all[i as int] == (scanned@[i as int].0@, scanned@[i as int].1@));
        }
        let mut value: Vec<u8> = Vec::new();
        push_bytes(&mut value, scanned[i].1.as_slice());
        let entry = match extract_v1_entry(scanned[i].0.as_slice(), value) {
            Ok(e) => e,
            Err(e) => {
                proof {
                    lemma_scan_none_extends(prefix@, all, i as int + 1);
                }
                return Err(e);
            },
        };
        let old_key = create_old_key(prefix, &entry);
        let new_key = create_new_key(prefix, &entry);
        let mut moved: Vec<u8> = Vec::new();
        push_bytes(&mut moved, entry.value.as_slice());
        let ghost before = batch@;
        batch.push(BatchOp::Remove(old_key));
        batch.push(BatchOp::Insert(new_key, moved));
        proof {
            assert(batch_view(batch@) =~= batch_view(before).push(batch@[before.len() as int]@).push(
                batch@[before.len() as int + 1]@,
            ));
        }
        i = i + 1;
    }
    proof {
        assert(all.take(i as int) =~= all);
    }
    Ok(batch)
}

/// Once a key fails, the changes of every longer scan are nothing too.
proof fn lemma_scan_none_extends(prefix: Seq<u8>, scanned: Seq<(Seq<u8>, Seq<u8>)>, k: int)
    requires
        0 <= k <= scanned.len(),
        scan_migration_ops(prefix, scanned.take(k)) is None,
    ensures
        scan_migration_ops(prefix, scanned) is None,
    decreases scanned.len() - k,
{
    if k < scanned.len() {
        assert(scanned.take(k + 1).drop_last() =~= scanned.take(k));
        lemma_scan_none_extends(prefix, scanned, k + 1);
    } else {
        assert(scanned.take(k) =~= scanned);
    }
}


/// The stored form of a `u32`: its four little-endian bytes.
pub open spec fn u32_bytes(v: u32) -> Seq<u8> {
    seq![(v % 256) as u8, ((v / 256) % 256) as u8, ((v / 65536) % 256) as u8, (v / 16777216) as u8]
}

/// The stored form of a `u32`, as [`u32_bytes`] states.
pub fn u32_to_bytes(v: u32) -> (r: Vec<u8>)
    ensures
        r@ == u32_bytes(v),
{
    let mut r: Vec<u8> = Vec::new();
    r.push((v % 256) as u8);
    r.push(((v / 256) % 256) as u8);
    r.push(((v / 65536) % 256) as u8);
    r.push((v / 16777216) as u8);
    r
}

/// A room and a user.
pub type RoomUser = (Seq<char>, Seq<char>);

/// The room and user of each key, in order; nothing when any key is not a
/// key of the second layout.
pub open spec fn key_room_users(keys: Seq<Seq<u8>>) -> Option<Seq<RoomUser>>
    decreases keys.len(),
{
    if keys.len() == 0 {
        Some(Seq::empty())
    } else {
        match (key_room_users(keys.drop_last()), v1_key_names(keys.last())) {
            (Some(pairs), Some((room, user, _))) => Some(pairs.push((room, user))),
            _ => None,
        }
    }
}

/// The position of the first count of `x`, or -1 when there is none.
pub open spec fn pair_index(counts: Seq<(RoomUser, nat)>, x: RoomUser) -> int
    decreases counts.len(),
{
    if counts.len() == 0 {
        -1
    } else {
        let j = pair_index(counts.drop_last(), x);
        if j >= 0 {
            j
        } else if counts.last().0 == x {
            counts.len() - 1
        } else {
            -1
        }
    }
}

/// How many times each room and user occurs, in the order of their first
/// occurrence.
pub open spec fn pair_counts(pairs: Seq<RoomUser>) -> Seq<(RoomUser, nat)>
    decreases pairs.len(),
{
    if pairs.len() == 0 {
        Seq::empty()
    } else {
        let c = pair_counts(pairs.drop_last());
        let x = pairs.last();
        let j = pair_index(c, x);
        if j < 0 {
            c.push((x, 1nat))
        } else {
            c.update(j, (x, c[j].1 + 1))
        }
    }
}

/// The name under which the number of variables of a user in a room is
/// kept.
pub open spec fn variable_count_name() -> Seq<char> {
    "variable_count"@
}

/// The changes that record the counts: for each room and user, the count
/// stored under `variable_count` in the variables space under `prefix`,
/// and the removal of the count kept under the earliest layout.
pub open spec fn count_ops(prefix: Seq<u8>, counts: Seq<(RoomUser, nat)>) -> Seq<BatchOpModel>
    decreases counts.len(),
{
    if counts.len() == 0 {
        Seq::empty()
    } else {
        let ((room, user), n) = counts.last();
        count_ops(prefix, counts.drop_last()).push(
            BatchOpModel::Insert(
                names_key(prefix, 0xff, room, user, variable_count_name()),
                u32_bytes(n as u32),
            ),
        ).push(
            BatchOpModel::Remove(
                encode_utf8(room) + encode_utf8(user) + encode_utf8(variable_count_name()),
            ),
        )
    }
}

proof fn lemma_pair_index(counts: Seq<(RoomUser, nat)>, x: RoomUser)
    ensures
        -1 <= pair_index(counts, x) < counts.len(),
        (forall|j: int| 0 <= j < counts.len() ==> #[trigger] counts[j].0 != x) ==> pair_index(counts, x)
            == -1,
        forall|k: int|
            0 <= k < counts.len() && #[trigger] counts[k].0 == x && (forall|j: int|
                0 <= j < k ==> counts[j].0 != x) ==> pair_index(counts, x) == k,
    decreases counts.len(),
{
    if counts.len() > 0 {
        let t = counts.drop_last();
        lemma_pair_index(t, x);
        assert forall|k: int|
            0 <= k < counts.len() && #[trigger] counts[k].0 == x && (forall|j: int|
                0 <= j < k ==> counts[j].0 != x) implies pair_index(counts, x) == k by {
            if k < t.len() {
                assert(t[k] == counts[k]);
                assert forall|j: int| 0 <= j < k implies t[j].0 != x by {
                    assert(t[j] == counts[j]);
                }
            } else {
                assert forall|j: int| 0 <= j < t.len() implies #[trigger] t[j].0 != x by {
                    assert(t[j] == counts[j]);
                }
            }
        }
        if forall|j: int| 0 <= j < counts.len() ==> #[trigger] counts[j].0 != x {
            assert forall|j: int| 0 <= j < t.len() implies #[trigger] t[j].0 != x by {
                assert(t[j] == counts[j]);
            }
        }
    }
}

proof fn lemma_pair_counts_bounded(pairs: Seq<RoomUser>)
    ensures
        forall|j: int| 0 <= j < pair_counts(pairs).len() ==> #[trigger] pair_counts(pairs)[j].1 <= pairs.len(),
        pair_counts(pairs).len() <= pairs.len(),
    decreases pairs.len(),
{
    if pairs.len() > 0 {
        lemma_pair_counts_bounded(pairs.drop_last());
        lemma_pair_index(pair_counts(pairs.drop_last()), pairs.last());
    }
}

/// The room and user of every key, in order; the error of the first key
/// that is not a key of the second layout.
fn room_users_of_keys(keys: &[Vec<u8>]) -> (r: Result<Vec<(String, String)>, MigrationError>)
    ensures
        match key_room_users(keys@.map_values(|k: Vec<u8>| k@)) {
            Some(pairs) => r matches Ok(v) && v@.len() == pairs.len() && forall|i: int|
                0 <= i < pairs.len() ==> (#[trigger] v@[i].0@, v@[i].1@) == pairs[i],
            None => r matches Err(MigrationError::MigrationFailed(m)) && m@
                == "a key violates utf8 schema"@,
        },
{
    let ghost all = keys@.map_values(|k: Vec<u8>| k@);
    let mut out: Vec<(String, String)> = Vec::new();
    let mut i: usize = 0;
    while i < keys.len()
        invariant
            i <= keys@.len(),
            all == keys@.map_values(|k: Vec<u8>| k@),
            key_room_users(all.take(i as int)) matches Some(pairs) && out@.len() == pairs.len()
                && forall|j: int| 0 <= j < pairs.len() ==> (#[trigger] out@[j].0@, out@[j].1@) == pairs[j],
        decreases keys@.len() - i,
    {
        proof {
            assert(all.take(i + 1).drop_last() =~= all.take(i as int));
            assert(all.take(i + 1).last() == keys@[i as int]@);
        }
        match room_and_user_of_key(keys[i].as_slice()) {
            Ok(pair) => {
                out.push(pair);
            },
            Err(e) => {
                proof {
                    lemma_room_users_none_extends(all, i as int + 1);
                }
                return Err(e);
            },
        }
        i = i + 1;
    }
    proof {
        assert(all.take(i as int) =~= all);
    }
    Ok(out)
}

proof fn lemma_key_room_users_len(keys: Seq<Seq<u8>>)
    ensures
        key_room_users(keys) matches Some(p) ==> p.len() == keys.len(),
    decreases keys.len(),
{
    if keys.len() > 0 {
        lemma_key_room_users_len(keys.drop_last());
    }
}

proof fn lemma_room_users_none_extends(keys: Seq<Seq<u8>>, k: int)
    requires
        0 <= k <= keys.len(),
        key_room_users(keys.take(k)) is None,
    ensures
        key_room_users(keys) is None,
    decreases keys.len() - k,
{
    if k < keys.len() {
        assert(keys.take(k + 1).drop_last() =~= keys.take(k));
        lemma_room_users_none_extends(keys, k + 1);
    } else {
        assert(keys.take(k) =~= keys);
    }
}

/// The batch that records how many variables each user keeps in each room,
/// from the keys of the variables (of the second layout) read from under
/// `prefix`: for each room and user, in the order they first occur, their
/// count is stored under `variable_count` in the variables space and the
/// count kept under the earliest layout is removed. Refused with the error
/// of the first key that is not of the second layout.
pub fn variable_count_batch(prefix: &[u8], keys: &[Vec<u8>]) -> (r: Result<Vec<BatchOp>, MigrationError>)
    requires
        keys@.len() <= u32::MAX,
    ensures
        match key_room_users(keys@.map_values(|k: Vec<u8>| k@)) {
            Some(pairs) => r matches Ok(b) && batch_view(b@) == count_ops(prefix@, pair_counts(pairs)),
            None => r matches Err(MigrationError::MigrationFailed(m)) && m@
                == "a key violates utf8 schema"@,
        },
{
    let pairs = match room_users_of_keys(keys) {
        Ok(p) => p,
        Err(e) => {
            return Err(e);
        },
    };
    let ghost ps = key_room_users(keys@.map_values(|k: Vec<u8>| k@))->Some_0;
    proof {
        assert(pairs@.len() == ps.len());
        lemma_key_room_users_len(keys@.map_values(|k: Vec<u8>| k@));
        lemma_pair_counts_bounded(ps);
    }
    let mut counts: Vec<(String, String, u32)> = Vec::new();
    let mut i: usize = 0;
    while i < pairs.len()
        invariant
            i <= pairs@.len(),
            pairs@.len() == ps.len(),
            ps.len() <= u32::MAX,
            forall|j: int| 0 <= j < ps.len() ==> (#[trigger] pairs@[j].0@, pairs@[j].1@) == ps[j],
            counts@.len() == pair_counts(ps.take(i as int)).len(),
            forall|j: int|
                0 <= j < counts@.len() ==> ((#[trigger] counts@[j].0@, counts@[j].1@), counts@[j].2 as nat)
                    == pair_counts(ps.take(i as int))[j],
        decreases pairs@.len() - i,
    {
        let ghost c = pair_counts(ps.take(i as int));
        let ghost x = ps[i as int];
        proof {
            assert(ps.take(i + 1).drop_last() =~= ps.take(i as int));
            assert(ps.take(i + 1).last() == x);
            lemma_pair_index(c, x);
            lemma_pair_counts_bounded(ps.take(i as int));
        }
        let mut k: usize = 0;
        let mut found = false;
        while k < counts.len()
            invariant_except_break
                !found,
            invariant
                k <= counts@.len(),
                counts@.len() == c.len(),
                forall|j: int| 0 <= j < counts@.len() ==> ((#[trigger] counts@[j].0@, counts@[j].1@), counts@[j].2 as nat) == c[j],
                forall|j: int| 0 <= j < k ==> #[trigger] c[j].0 != x,
                i < pairs@.len(),
                x == (pairs@[i as int].0@, pairs@[i as int].1@),
            ensures
                found ==> k < counts@.len() && c[k as int].0 == x,
                !found ==> k == counts@.len(),
                forall|j: int| 0 <= j < k ==> #[trigger] c[j].0 != x,
            decreases counts@.len() - k,
        {
            if crate::text::text_eq(counts[k].0.as_str(), pairs[i].0.as_str()) && crate::text::text_eq(
                counts[k].1.as_str(),
                pairs[i].1.as_str(),
            ) {
                assert(c[k as int].0 == x);
                found = true;
                break;
            }
            assert(c[k as int].0 != x);
            k = k + 1;
        }
        if found {
            assert(pair_index(c, x) == k);
            assert(c[k as int].1 <= i);
            assert(((counts@[k as int].0@, counts@[k as int].1@), counts@[k as int].2 as nat) == c[k as int]);
            assert(i < ps.len());
            let n = counts[k].2 + 1;
            let room = counts[k].0.clone();
            let user = counts[k].1.clone();
            let ghost before = counts@;
            counts.set(k, (room, user, n));
            proof {
                assert forall|j: int| 0 <= j < counts@.len() implies ((#[trigger] counts@[j].0@, counts@[j].1@), counts@[j].2 as nat) == pair_counts(ps.take(i + 1))[j] by {
                    if j != k {
                        assert(counts@[j] == before[j]);
                    }
                }
            }
        } else {
            assert(pair_index(c, x) == -1);
            let room = pairs[i].0.clone();
            let user = pairs[i].1.clone();
            let ghost before = counts@;
            counts.push((room, user, 1));
            proof {
                assert forall|j: int| 0 <= j < counts@.len() implies ((#[trigger] counts@[j].0@, counts@[j].1@), counts@[j].2 as nat) == pair_counts(ps.take(i + 1))[j] by {
                    if j < before.len() {
                        assert(counts@[j] == before[j]);
                    }
                }
            }
        }
        i = i + 1;
    }
    proof {
        assert(ps.take(i as int) =~= ps);
    }
    let ghost cs = pair_counts(ps);
    let mut batch: Vec<BatchOp> = Vec::new();
    let mut j: usize = 0;
    while j < counts.len()
        invariant
            j <= counts@.len(),
            counts@.len() == cs.len(),
            forall|m: int| 0 <= m < counts@.len() ==> ((#[trigger] counts@[m].0@, counts@[m].1@), counts@[m].2 as nat) == cs[m],
            batch_view(batch@) == count_ops(prefix@, cs.take(j as int)),
        decreases counts@.len() - j,
    {
        let entry = UserVariableEntry {
            room_id: counts[j].0.clone(),
            username: counts[j].1.clone(),
            variable_name: "variable_count".to_owned(),
            value: Vec::new(),
        };
        let key = create_old_key(prefix, &entry);
        let value = u32_to_bytes(counts[j].2);
        let old_key = v0_variable_key(counts[j].0.as_str(), counts[j].1.as_str(), "variable_count");
        let ghost before = batch@;
        batch.push(BatchOp::Insert(key, value));
        batch.push(BatchOp::Remove(old_key));
        proof {
            reveal_strlit("variable_count");
            assert(cs.take(j + 1).drop_last() =~= cs.take(j as int));
            assert(cs.take(j + 1).last() == cs[j as int]);
            assert(batch_view(batch@) =~= batch_view(before).push(batch@[before.len() as int]@).push(
                batch@[before.len() as int + 1]@,
            ));
        }
        j = j + 1;
    }
    proof {
        assert(cs.take(j as int) =~= cs);
    }
    Ok(batch)
}

}
