//! Entity schema: the structural shape of every table, held as data.
//!
//! A table definition is immutable once shipped; new structure only ever
//! arrives through new, higher-versioned migration steps. The migration
//! engine consumes these definitions as its payload and compares shapes
//! when it finds a table already present, so each definition carries a
//! mathematical view (`TableDefV` and friends) and a verified equality
//! test over that view.

use vstd::prelude::*;

verus! {

/// Storage type of a column.
#[derive(Debug, Clone, Copy, PartialEq, Eq, Structural)]
pub enum ColumnType {
    Integer,
    Text,
    Datetime,
    Boolean,
}

/// Default value a column takes when an insertion omits it.
#[derive(Debug)]
pub enum DefaultValue {
    /// The column has no default; an insertion must supply it or leave null.
    NoDefault,
    /// A fixed text default, e.g. `'offline'`.
    Text(String),
    /// A fixed integer default, e.g. `0`.
    Int(i64),
    /// A fixed boolean default, e.g. `FALSE`.
    Bool(bool),
    /// The storage engine fills in the time of insertion.
    CurrentTimestamp,
}

/// Mathematical view of a `DefaultValue`.
pub enum DefaultValueV {
    NoDefault,
    Text(Seq<char>),
    Int(i64),
    Bool(bool),
    CurrentTimestamp,
}

impl View for DefaultValue {
    type V = DefaultValueV;

    open spec fn view(&self) -> DefaultValueV {
        match self {
            DefaultValue::NoDefault => DefaultValueV::NoDefault,
            DefaultValue::Text(s) => DefaultValueV::Text(s@),
            DefaultValue::Int(n) => DefaultValueV::Int(*n),
            DefaultValue::Bool(b) => DefaultValueV::Bool(*b),
            DefaultValue::CurrentTimestamp => DefaultValueV::CurrentTimestamp,
        }
    }
}

/// One column of a table.
#[derive(Debug)]
pub struct ColumnDef {
    pub name: String,
    pub ctype: ColumnType,
    pub not_null: bool,
    pub unique: bool,
    pub default: DefaultValue,
}

/// Mathematical view of a `ColumnDef`.
#[verifier::ext_equal]
pub struct ColumnDefV {
    pub name: Seq<char>,
    pub ctype: ColumnType,
    pub not_null: bool,
    pub unique: bool,
    pub default: DefaultValueV,
}

impl View for ColumnDef {
    type V = ColumnDefV;

    open spec fn view(&self) -> ColumnDefV {
        ColumnDefV {
            name: self.name@,
            ctype: self.ctype,
            not_null: self.not_null,
            unique: self.unique,
            default: self.default@,
        }
    }
}

/// A foreign-key relationship: `column` must reference an existing row's
/// `parent_column` in `parent_table`.
#[derive(Debug)]
pub struct ForeignKey {
    pub column: String,
    pub parent_table: String,
    pub parent_column: String,
}

/// Mathematical view of a `ForeignKey`.
#[verifier::ext_equal]
pub struct ForeignKeyV {
    pub column: Seq<char>,
    pub parent_table: Seq<char>,
    pub parent_column: Seq<char>,
}

impl View for ForeignKey {
    type V = ForeignKeyV;

    open spec fn view(&self) -> ForeignKeyV {
        ForeignKeyV {
            column: self.column@,
            parent_table: self.parent_table@,
            parent_column: self.parent_column@,
        }
    }
}

/// The full structural shape of one table.
#[derive(Debug)]
pub struct TableDef {
    pub name: String,
    pub columns: Vec<ColumnDef>,
    /// Names of the primary-key columns, in key order.
    pub primary_key: Vec<String>,
    /// Whether the (single, integer) primary key is auto-assigned.
    pub autoincrement: bool,
    pub foreign_keys: Vec<ForeignKey>,
}

/// Mathematical view of a `TableDef`.
#[verifier::ext_equal]
pub struct TableDefV {
    pub name: Seq<char>,
    pub columns: Seq<ColumnDefV>,
    pub primary_key: Seq<Seq<char>>,
    pub autoincrement: bool,
    pub foreign_keys: Seq<ForeignKeyV>,
}

impl View for TableDef {
    type V = TableDefV;

    open spec fn view(&self) -> TableDefV {
        TableDefV {
            name: self.name@,
            columns: self.columns@.map_values(|c: ColumnDef| c@),
            primary_key: self.primary_key@.map_values(|s: String| s@),
            autoincrement: self.autoincrement,
            foreign_keys: self.foreign_keys@.map_values(|f: ForeignKey| f@),
        }
    }
}

/// Shape equality of two default values, exactly the equality of their views.
pub fn default_value_eq(a: &DefaultValue, b: &DefaultValue) -> (r: bool)
    ensures
        r == (a@ == b@),
{
    match (a, b) {
        (DefaultValue::NoDefault, DefaultValue::NoDefault) => true,
        (DefaultValue::Text(x), DefaultValue::Text(y)) => *x == *y,
        (DefaultValue::Int(x), DefaultValue::Int(y)) => x == y,
        (DefaultValue::Bool(x), DefaultValue::Bool(y)) => x == y,
        (DefaultValue::CurrentTimestamp, DefaultValue::CurrentTimestamp) => true,
        _ => false,
    }
}

/// Shape equality of two columns, exactly the equality of their views.
pub fn column_eq(a: &ColumnDef, b: &ColumnDef) -> (r: bool)
    ensures
        r == (a@ == b@),
{
    let r = a.name == b.name && a.ctype == b.ctype && a.not_null == b.not_null && a.unique
        == b.unique && default_value_eq(&a.default, &b.default);
    proof {
        if r {
            assert(a@ =~= b@);
        }
    }
    r
}

/// Shape equality of two foreign keys, exactly the equality of their views.
pub fn foreign_key_eq(a: &ForeignKey, b: &ForeignKey) -> (r: bool)
    ensures
        r == (a@ == b@),
{
    let r = a.column == b.column && a.parent_table == b.parent_table && a.parent_column
        == b.parent_column;
    proof {
        if r {
            assert(a@ =~= b@);
        }
    }
    r
}

/// Equality of two column lists, exactly the equality of their views.
pub fn columns_eq(a: &Vec<ColumnDef>, b: &Vec<ColumnDef>) -> (r: bool)
    ensures
        r == (a@.map_values(|c: ColumnDef| c@) =~= b@.map_values(|c: ColumnDef| c@)),
{
    let av = Ghost(a@.map_values(|c: ColumnDef| c@));
    let bv = Ghost(b@.map_values(|c: ColumnDef| c@));
    if a.len() != b.len() {
        return false;
    }
    for i in 0..a.len()
        invariant
            a@.len() == b@.len(),
            av@ == a@.map_values(|c: ColumnDef| c@),
            bv@ == b@.map_values(|c: ColumnDef| c@),
            forall|j: int| 0 <= j < i ==> av@[j] == bv@[j],
    {
        if !column_eq(&a[i], &b[i]) {
            assert(av@[i as int] != bv@[i as int]);
            return false;
        }
    }
    assert(av@ =~= bv@);
    true
}

/// Equality of two column-name lists, exactly the equality of their views.
pub fn names_eq(a: &Vec<String>, b: &Vec<String>) -> (r: bool)
    ensures
        r == (a@.map_values(|s: String| s@) =~= b@.map_values(|s: String| s@)),
{
    let av = Ghost(a@.map_values(|s: String| s@));
    let bv = Ghost(b@.map_values(|s: String| s@));
    if a.len() != b.len() {
        return false;
    }
    for i in 0..a.len()
        invariant
            a@.len() == b@.len(),
            av@ == a@.map_values(|s: String| s@),
            bv@ == b@.map_values(|s: String| s@),
            forall|j: int| 0 <= j < i ==> av@[j] == bv@[j],
    {
        if !(a[i] == b[i]) {
            assert(av@[i as int] != bv@[i as int]);
            return false;
        }
    }
    assert(av@ =~= bv@);
    true
}

/// Equality of two foreign-key lists, exactly the equality of their views.
pub fn foreign_keys_eq(a: &Vec<ForeignKey>, b: &Vec<ForeignKey>) -> (r: bool)
    ensures
        r == (a@.map_values(|f: ForeignKey| f@) =~= b@.map_values(|f: ForeignKey| f@)),
{
    let av = Ghost(a@.map_values(|f: ForeignKey| f@));
    let bv = Ghost(b@.map_values(|f: ForeignKey| f@));
    if a.len() != b.len() {
        return false;
    }
    for i in 0..a.len()
        invariant
            a@.len() == b@.len(),
            av@ == a@.map_values(|f: ForeignKey| f@),
            bv@ == b@.map_values(|f: ForeignKey| f@),
            forall|j: int| 0 <= j < i ==> av@[j] == bv@[j],
    {
        if !foreign_key_eq(&a[i], &b[i]) {
            assert(av@[i as int] != bv@[i as int]);
            return false;
        }
    }
    assert(av@ =~= bv@);
    true
}

/// Whether `tables` holds a table named `name`.
pub open spec fn has_table(tables: Seq<TableDefV>, name: Seq<char>) -> bool {
    exists|i: int| 0 <= i < tables.len() && tables[i].name == name
}

/// The table of `tables` named `name` (meaningful under `has_table` and
/// `distinct_table_names`).
pub open spec fn table_named(tables: Seq<TableDefV>, name: Seq<char>) -> TableDefV {
    tables[choose|i: int| 0 <= i < tables.len() && tables[i].name == name]
}

/// No two tables share a name.
pub open spec fn distinct_table_names(tables: Seq<TableDefV>) -> bool {
    forall|i: int, j: int|
        0 <= i < j < tables.len() ==> #[trigger] tables[i].name != #[trigger] tables[j].name
}

/// Under distinct names, `table_named` picks exactly the table at the
/// witnessing index.
pub proof fn lemma_table_named_at(tables: Seq<TableDefV>, i: int)
    requires
        distinct_table_names(tables),
        0 <= i < tables.len(),
    ensures
        table_named(tables, tables[i].name) == tables[i],
{
    let name = tables[i].name;
    assert(has_table(tables, name));
    let j = choose|j: int| 0 <= j < tables.len() && tables[j].name == name;
    if i != j {
        if i < j {
            assert(tables[i].name != tables[j].name);
        } else {
            assert(tables[j].name != tables[i].name);
        }
    }
}

/// Deep copy of a default value; the copy has the same view.
pub fn clone_default_value(d: &DefaultValue) -> (r: DefaultValue)
    ensures
        r@ == d@,
{
    match d {
        DefaultValue::NoDefault => DefaultValue::NoDefault,
        DefaultValue::Text(s) => DefaultValue::Text(s.clone()),
        DefaultValue::Int(n) => DefaultValue::Int(*n),
        DefaultValue::Bool(b) => DefaultValue::Bool(*b),
        DefaultValue::CurrentTimestamp => DefaultValue::CurrentTimestamp,
    }
}

/// Deep copy of a column definition; the copy has the same view.
pub fn clone_column(c: &ColumnDef) -> (r: ColumnDef)
    ensures
        r@ == c@,
{
    ColumnDef {
        name: c.name.clone(),
        ctype: c.ctype,
        not_null: c.not_null,
        unique: c.unique,
        default: clone_default_value(&c.default),
    }
}

/// Deep copy of a foreign key; the copy has the same view.
pub fn clone_foreign_key(f: &ForeignKey) -> (r: ForeignKey)
    ensures
        r@ == f@,
{
    ForeignKey {
        column: f.column.clone(),
        parent_table: f.parent_table.clone(),
        parent_column: f.parent_column.clone(),
    }
}

/// Deep copy of a table definition; the copy has the same view.
pub fn clone_table_def(t: &TableDef) -> (r: TableDef)
    ensures
        r@ == t@,
{
    let mut columns: Vec<ColumnDef> = Vec::new();
    for i in 0..t.columns.len()
        invariant
            columns@.len() == i,
            forall|j: int| 0 <= j < i ==> columns@[j]@ == t.columns@[j]@,
    {
        columns.push(clone_column(&t.columns[i]));
    }
    let mut primary_key: Vec<String> = Vec::new();
    for i in 0..t.primary_key.len()
        invariant
            primary_key@.len() == i,
            forall|j: int| 0 <= j < i ==> primary_key@[j]@ == t.primary_key@[j]@,
    {
        primary_key.push(t.primary_key[i].clone());
    }
    let mut foreign_keys: Vec<ForeignKey> = Vec::new();
    for i in 0..t.foreign_keys.len()
        invariant
            foreign_keys@.len() == i,
            forall|j: int| 0 <= j < i ==> foreign_keys@[j]@ == t.foreign_keys@[j]@,
    {
        foreign_keys.push(clone_foreign_key(&t.foreign_keys[i]));
    }
    let r = TableDef { name: t.name.clone(), columns, primary_key, autoincrement: t.autoincrement, foreign_keys };
    proof {
        assert(r@.columns =~= t@.columns);
        assert(r@.primary_key =~= t@.primary_key);
        assert(r@.foreign_keys =~= t@.foreign_keys);
        assert(r@ =~= t@);
    }
    r
}

/// Shape equality of two table definitions, exactly the equality of their
/// views. The migration engine uses this to recognise a table that a
/// retried step has already created (same shape: skip) and to detect a
/// conflicting definition (different shape: fail).
pub fn table_def_eq(a: &TableDef, b: &TableDef) -> (r: bool)
    ensures
        r == (a@ == b@),
{
    let r = a.name == b.name && columns_eq(&a.columns, &b.columns) && names_eq(
        &a.primary_key,
        &b.primary_key,
    ) && a.autoincrement == b.autoincrement && foreign_keys_eq(&a.foreign_keys, &b.foreign_keys);
    proof {
        if r {
            assert(a@ =~= b@);
        } else {
            assert(a@ != b@);
        }
    }
    r
}

/// Shorthand for a column view.
pub open spec fn colv(
    name: Seq<char>,
    ctype: ColumnType,
    not_null: bool,
    unique: bool,
    default: DefaultValueV,
) -> ColumnDefV {
    ColumnDefV { name, ctype, not_null, unique, default }
}

/// Shorthand for a foreign-key view.
pub open spec fn fkv(
    column: Seq<char>,
    parent_table: Seq<char>,
    parent_column: Seq<char>,
) -> ForeignKeyV {
    ForeignKeyV { column, parent_table, parent_column }
}

/// Builds a column definition.
fn col(
    name: &str,
    ctype: ColumnType,
    not_null: bool,
    unique: bool,
    default: DefaultValue,
) -> (c: ColumnDef)
    ensures
        c@ == colv(name@, ctype, not_null, unique, default@),
{
    ColumnDef { name: name.to_string(), ctype, not_null, unique, default }
}

/// Builds a foreign-key declaration.
fn fk(column: &str, parent_table: &str, parent_column: &str) -> (f: ForeignKey)
    ensures
        f@ == fkv(column@, parent_table@, parent_column@),
{
    ForeignKey {
        column: column.to_string(),
        parent_table: parent_table.to_string(),
        parent_column: parent_column.to_string(),
    }
}

/// The `users` table: unique usernames, auto-assigned integer ids.
pub open spec fn users_table_v() -> TableDefV {
    TableDefV {
        name: "users"@,
        columns: seq![
            colv("id"@, ColumnType::Integer, true, false, DefaultValueV::NoDefault),
            colv("username"@, ColumnType::Text, true, true, DefaultValueV::NoDefault),
            colv("avatar_url"@, ColumnType::Text, false, false, DefaultValueV::NoDefault),
            colv("status"@, ColumnType::Text, false, false, DefaultValueV::Text("offline"@)),
            colv("created_at"@, ColumnType::Datetime, false, false, DefaultValueV::CurrentTimestamp),
        ],
        primary_key: seq!["id"@],
        autoincrement: true,
        foreign_keys: Seq::<ForeignKeyV>::empty(),
    }
}

/// Exec builder for [`users_table_v`].
pub fn users_table() -> (t: TableDef)
    ensures
        t@ == users_table_v(),
{
    let mut columns: Vec<ColumnDef> = Vec::new();
    columns.push(col("id", ColumnType::Integer, true, false, DefaultValue::NoDefault));
    columns.push(col("username", ColumnType::Text, true, true, DefaultValue::NoDefault));
    columns.push(col("avatar_url", ColumnType::Text, false, false, DefaultValue::NoDefault));
    columns.push(
        col("status", ColumnType::Text, false, false, DefaultValue::Text("offline".to_string())),
    );
    columns.push(
        col("created_at", ColumnType::Datetime, false, false, DefaultValue::CurrentTimestamp),
    );
    let mut primary_key: Vec<String> = Vec::new();
    primary_key.push("id".to_string());
    let foreign_keys: Vec<ForeignKey> = Vec::new();
    let t = TableDef {
        name: "users".to_string(),
        columns,
        primary_key,
        autoincrement: true,
        foreign_keys,
    };
    proof {
        assert(t@ =~~= users_table_v());
    }
    t
}

/// The `messages` table: direct messages between two users.
pub open spec fn messages_table_v() -> TableDefV {
    TableDefV {
        name: "messages"@,
        columns: seq![
            colv("id"@, ColumnType::Integer, true, false, DefaultValueV::NoDefault),
            colv("sender_id"@, ColumnType::Integer, true, false, DefaultValueV::NoDefault),
            colv("receiver_id"@, ColumnType::Integer, true, false, DefaultValueV::NoDefault),
            colv("content"@, ColumnType::Text, true, false, DefaultValueV::NoDefault),
            colv("message_type"@, ColumnType::Text, false, false, DefaultValueV::Text("text"@)),
            colv("timestamp"@, ColumnType::Datetime, false, false, DefaultValueV::CurrentTimestamp),
            colv("is_read"@, ColumnType::Boolean, false, false, DefaultValueV::Bool(false)),
        ],
        primary_key: seq!["id"@],
        autoincrement: true,
        foreign_keys: seq![
            fkv("sender_id"@, "users"@, "id"@),
            fkv("receiver_id"@, "users"@, "id"@),
        ],
    }
}

/// Exec builder for [`messages_table_v`].
pub fn messages_table() -> (t: TableDef)
    ensures
        t@ == messages_table_v(),
{
    let mut columns: Vec<ColumnDef> = Vec::new();
    columns.push(col("id", ColumnType::Integer, true, false, DefaultValue::NoDefault));
    columns.push(col("sender_id", ColumnType::Integer, true, false, DefaultValue::NoDefault));
    columns.push(col("receiver_id", ColumnType::Integer, true, false, DefaultValue::NoDefault));
    columns.push(col("content", ColumnType::Text, true, false, DefaultValue::NoDefault));
    columns.push(
        col("message_type", ColumnType::Text, false, false, DefaultValue::Text("text".to_string())),
    );
    columns.push(
        col("timestamp", ColumnType::Datetime, false, false, DefaultValue::CurrentTimestamp),
    );
    columns.push(col("is_read", ColumnType::Boolean, false, false, DefaultValue::Bool(false)));
    let mut primary_key: Vec<String> = Vec::new();
    primary_key.push("id".to_string());
    let mut foreign_keys: Vec<ForeignKey> = Vec::new();
    foreign_keys.push(fk("sender_id", "users", "id"));
    foreign_keys.push(fk("receiver_id", "users", "id"));
    let t = TableDef {
        name: "messages".to_string(),
        columns,
        primary_key,
        autoincrement: true,
        foreign_keys,
    };
    proof {
        assert(t@ =~~= messages_table_v());
    }
    t
}

/// The `contacts` table: an asymmetric user-to-user relation.
pub open spec fn contacts_table_v() -> TableDefV {
    TableDefV {
        name: "contacts"@,
        columns: seq![
            colv("user_id"@, ColumnType::Integer, true, false, DefaultValueV::NoDefault),
            colv("contact_id"@, ColumnType::Integer, true, false, DefaultValueV::NoDefault),
            colv("added_at"@, ColumnType::Datetime, false, false, DefaultValueV::CurrentTimestamp),
        ],
        primary_key: seq!["user_id"@, "contact_id"@],
        autoincrement: false,
        foreign_keys: seq![fkv("user_id"@, "users"@, "id"@), fkv("contact_id"@, "users"@, "id"@)],
    }
}

/// Exec builder for [`contacts_table_v`].
pub fn contacts_table() -> (t: TableDef)
    ensures
        t@ == contacts_table_v(),
{
    let mut columns: Vec<ColumnDef> = Vec::new();
    columns.push(col("user_id", ColumnType::Integer, true, false, DefaultValue::NoDefault));
    columns.push(col("contact_id", ColumnType::Integer, true, false, DefaultValue::NoDefault));
    columns.push(
        col("added_at", ColumnType::Datetime, false, false, DefaultValue::CurrentTimestamp),
    );
    let mut primary_key: Vec<String> = Vec::new();
    primary_key.push("user_id".to_string());
    primary_key.push("contact_id".to_string());
    let mut foreign_keys: Vec<ForeignKey> = Vec::new();
    foreign_keys.push(fk("user_id", "users", "id"));
    foreign_keys.push(fk("contact_id", "users", "id"));
    let t = TableDef {
        name: "contacts".to_string(),
        columns,
        primary_key,
        autoincrement: false,
        foreign_keys,
    };
    proof {
        assert(t@ =~~= contacts_table_v());
    }
    t
}

/// The `auth_tokens` table: access tokens issued to users.
pub open spec fn auth_tokens_table_v() -> TableDefV {
    TableDefV {
        name: "auth_tokens"@,
        columns: seq![
            colv("id"@, ColumnType::Integer, true, false, DefaultValueV::NoDefault),
            colv("user_id"@, ColumnType::Integer, true, false, DefaultValueV::NoDefault),
            colv("access_token"@, ColumnType::Text, true, false, DefaultValueV::NoDefault),
            colv("refresh_token"@, ColumnType::Text, false, false, DefaultValueV::NoDefault),
            colv("expires_at"@, ColumnType::Datetime, true, false, DefaultValueV::NoDefault),
            colv("created_at"@, ColumnType::Datetime, false, false, DefaultValueV::CurrentTimestamp),
        ],
        primary_key: seq!["id"@],
        autoincrement: true,
        foreign_keys: seq![fkv("user_id"@, "users"@, "id"@)],
    }
}

/// Exec builder for [`auth_tokens_table_v`].
pub fn auth_tokens_table() -> (t: TableDef)
    ensures
        t@ == auth_tokens_table_v(),
{
    let mut columns: Vec<ColumnDef> = Vec::new();
    columns.push(col("id", ColumnType::Integer, true, false, DefaultValue::NoDefault));
    columns.push(col("user_id", ColumnType::Integer, true, false, DefaultValue::NoDefault));
    columns.push(col("access_token", ColumnType::Text, true, false, DefaultValue::NoDefault));
    columns.push(col("refresh_token", ColumnType::Text, false, false, DefaultValue::NoDefault));
    columns.push(col("expires_at", ColumnType::Datetime, true, false, DefaultValue::NoDefault));
    columns.push(
        col("created_at", ColumnType::Datetime, false, false, DefaultValue::CurrentTimestamp),
    );
    let mut primary_key: Vec<String> = Vec::new();
    primary_key.push("id".to_string());
    let mut foreign_keys: Vec<ForeignKey> = Vec::new();
    foreign_keys.push(fk("user_id", "users", "id"));
    let t = TableDef {
        name: "auth_tokens".to_string(),
        columns,
        primary_key,
        autoincrement: true,
        foreign_keys,
    };
    proof {
        assert(t@ =~~= auth_tokens_table_v());
    }
    t
}

/// The `groups` table: caller-supplied string ids and a denormalized
/// member counter.
pub open spec fn groups_table_v() -> TableDefV {
    TableDefV {
        name: "groups"@,
        columns: seq![
            colv("id"@, ColumnType::Text, true, false, DefaultValueV::NoDefault),
            colv("name"@, ColumnType::Text, true, false, DefaultValueV::NoDefault),
            colv("description"@, ColumnType::Text, false, false, DefaultValueV::NoDefault),
            colv("avatar_url"@, ColumnType::Text, false, false, DefaultValueV::NoDefault),
            colv("member_count"@, ColumnType::Integer, false, false, DefaultValueV::Int(0)),
            colv("created_by"@, ColumnType::Integer, true, false, DefaultValueV::NoDefault),
            colv("created_at"@, ColumnType::Datetime, false, false, DefaultValueV::CurrentTimestamp),
        ],
        primary_key: seq!["id"@],
        autoincrement: false,
        foreign_keys: seq![fkv("created_by"@, "users"@, "id"@)],
    }
}

/// Exec builder for [`groups_table_v`].
pub fn groups_table() -> (t: TableDef)
    ensures
        t@ == groups_table_v(),
{
    let mut columns: Vec<ColumnDef> = Vec::new();
    columns.push(col("id", ColumnType::Text, true, false, DefaultValue::NoDefault));
    columns.push(col("name", ColumnType::Text, true, false, DefaultValue::NoDefault));
    columns.push(col("description", ColumnType::Text, false, false, DefaultValue::NoDefault));
    columns.push(col("avatar_url", ColumnType::Text, false, false, DefaultValue::NoDefault));
    columns.push(col("member_count", ColumnType::Integer, false, false, DefaultValue::Int(0)));
    columns.push(col("created_by", ColumnType::Integer, true, false, DefaultValue::NoDefault));
    columns.push(
        col("created_at", ColumnType::Datetime, false, false, DefaultValue::CurrentTimestamp),
    );
    let mut primary_key: Vec<String> = Vec::new();
    primary_key.push("id".to_string());
    let mut foreign_keys: Vec<ForeignKey> = Vec::new();
    foreign_keys.push(fk("created_by", "users", "id"));
    let t = TableDef {
        name: "groups".to_string(),
        columns,
        primary_key,
        autoincrement: false,
        foreign_keys,
    };
    proof {
        assert(t@ =~~= groups_table_v());
    }
    t
}

/// The `group_members` table: membership rows with a role.
pub open spec fn group_members_table_v() -> TableDefV {
    TableDefV {
        name: "group_members"@,
        columns: seq![
            colv("group_id"@, ColumnType::Text, true, false, DefaultValueV::NoDefault),
            colv("user_id"@, ColumnType::Integer, true, false, DefaultValueV::NoDefault),
            colv("role"@, ColumnType::Text, false, false, DefaultValueV::Text("member"@)),
            colv("joined_at"@, ColumnType::Datetime, false, false, DefaultValueV::CurrentTimestamp),
        ],
        primary_key: seq!["group_id"@, "user_id"@],
        autoincrement: false,
        foreign_keys: seq![fkv("group_id"@, "groups"@, "id"@), fkv("user_id"@, "users"@, "id"@)],
    }
}

/// Exec builder for [`group_members_table_v`].
pub fn group_members_table() -> (t: TableDef)
    ensures
        t@ == group_members_table_v(),
{
    let mut columns: Vec<ColumnDef> = Vec::new();
    columns.push(col("group_id", ColumnType::Text, true, false, DefaultValue::NoDefault));
    columns.push(col("user_id", ColumnType::Integer, true, false, DefaultValue::NoDefault));
    columns.push(
        col("role", ColumnType::Text, false, false, DefaultValue::Text("member".to_string())),
    );
    columns.push(
        col("joined_at", ColumnType::Datetime, false, false, DefaultValue::CurrentTimestamp),
    );
    let mut primary_key: Vec<String> = Vec::new();
    primary_key.push("group_id".to_string());
    primary_key.push("user_id".to_string());
    let mut foreign_keys: Vec<ForeignKey> = Vec::new();
    foreign_keys.push(fk("group_id", "groups", "id"));
    foreign_keys.push(fk("user_id", "users", "id"));
    let t = TableDef {
        name: "group_members".to_string(),
        columns,
        primary_key,
        autoincrement: false,
        foreign_keys,
    };
    proof {
        assert(t@ =~~= group_members_table_v());
    }
    t
}

/// The `group_contacts` table: a user's group memberships from the
/// user's perspective (denormalized counterpart of `group_members`).
pub open spec fn group_contacts_table_v() -> TableDefV {
    TableDefV {
        name: "group_contacts"@,
        columns: seq![
            colv("user_id"@, ColumnType::Integer, true, false, DefaultValueV::NoDefault),
            colv("group_id"@, ColumnType::Text, true, false, DefaultValueV::NoDefault),
            colv("joined_at"@, ColumnType::Datetime, false, false, DefaultValueV::CurrentTimestamp),
        ],
        primary_key: seq!["user_id"@, "group_id"@],
        autoincrement: false,
        foreign_keys: seq![fkv("user_id"@, "users"@, "id"@), fkv("group_id"@, "groups"@, "id"@)],
    }
}

/// Exec builder for [`group_contacts_table_v`].
pub fn group_contacts_table() -> (t: TableDef)
    ensures
        t@ == group_contacts_table_v(),
{
    let mut columns: Vec<ColumnDef> = Vec::new();
    columns.push(col("user_id", ColumnType::Integer, true, false, DefaultValue::NoDefault));
    columns.push(col("group_id", ColumnType::Text, true, false, DefaultValue::NoDefault));
    columns.push(
        col("joined_at", ColumnType::Datetime, false, false, DefaultValue::CurrentTimestamp),
    );
    let mut primary_key: Vec<String> = Vec::new();
    primary_key.push("user_id".to_string());
    primary_key.push("group_id".to_string());
    let mut foreign_keys: Vec<ForeignKey> = Vec::new();
    foreign_keys.push(fk("user_id", "users", "id"));
    foreign_keys.push(fk("group_id", "groups", "id"));
    let t = TableDef {
        name: "group_contacts".to_string(),
        columns,
        primary_key,
        autoincrement: false,
        foreign_keys,
    };
    proof {
        assert(t@ =~~= group_contacts_table_v());
    }
    t
}

/// The `group_messages` table: messages addressed to a whole group.
pub open spec fn group_messages_table_v() -> TableDefV {
    TableDefV {
        name: "group_messages"@,
        columns: seq![
            colv("id"@, ColumnType::Integer, true, false, DefaultValueV::NoDefault),
            colv("group_id"@, ColumnType::Text, true, false, DefaultValueV::NoDefault),
            colv("sender_id"@, ColumnType::Integer, true, false, DefaultValueV::NoDefault),
            colv("content"@, ColumnType::Text, true, false, DefaultValueV::NoDefault),
            colv("message_type"@, ColumnType::Text, false, false, DefaultValueV::Text("text"@)),
            colv("timestamp"@, ColumnType::Datetime, false, false, DefaultValueV::CurrentTimestamp),
        ],
        primary_key: seq!["id"@],
        autoincrement: true,
        foreign_keys: seq![fkv("group_id"@, "groups"@, "id"@), fkv("sender_id"@, "users"@, "id"@)],
    }
}

/// Exec builder for [`group_messages_table_v`].
pub fn group_messages_table() -> (t: TableDef)
    ensures
        t@ == group_messages_table_v(),
{
    let mut columns: Vec<ColumnDef> = Vec::new();
    columns.push(col("id", ColumnType::Integer, true, false, DefaultValue::NoDefault));
    columns.push(col("group_id", ColumnType::Text, true, false, DefaultValue::NoDefault));
    columns.push(col("sender_id", ColumnType::Integer, true, false, DefaultValue::NoDefault));
    columns.push(col("content", ColumnType::Text, true, false, DefaultValue::NoDefault));
    columns.push(
        col("message_type", ColumnType::Text, false, false, DefaultValue::Text("text".to_string())),
    );
    columns.push(
        col("timestamp", ColumnType::Datetime, false, false, DefaultValue::CurrentTimestamp),
    );
    let mut primary_key: Vec<String> = Vec::new();
    primary_key.push("id".to_string());
    let mut foreign_keys: Vec<ForeignKey> = Vec::new();
    foreign_keys.push(fk("group_id", "groups", "id"));
    foreign_keys.push(fk("sender_id", "users", "id"));
    let t = TableDef {
        name: "group_messages".to_string(),
        columns,
        primary_key,
        autoincrement: true,
        foreign_keys,
    };
    proof {
        assert(t@ =~~= group_messages_table_v());
    }
    t
}

} // verus!
