//! Record types of the persistence layer, and the closed set of collections.
//!
//! Timestamps are carried as plain integers (microseconds since the epoch);
//! converting to and from calendar forms is the transport layer's concern.

use vstd::prelude::*;
use vstd::string::StringSliceAdditionalSpecFns;

verus! {

/// A user record.
#[derive(Debug, PartialEq)]
pub struct User {
    pub id: i32,
    pub name: String,
    pub profile: String,
    pub created_at: i64,
    pub updated_at: Option<i64>,
    pub deleted_at: Option<i64>,
}

/// A post record: the field set shared by challenges and responses.
#[derive(Debug, PartialEq)]
pub struct Post {
    pub id: i32,
    pub title: String,
    pub body: String,
    pub user_id: i32,
    pub created_at: i64,
    pub updated_at: Option<i64>,
    pub deleted_at: Option<i64>,
}

/// The challenge-specific columns, keyed by the post they extend.
#[derive(Debug, PartialEq)]
pub struct ChallengeData {
    pub post_id: i32,
    pub challenge_type_id: i16,
}

/// A challenge-type record.
#[derive(Debug, PartialEq)]
pub struct ChallengeType {
    pub id: i16,
    pub name: String,
    pub description: String,
}

/// A challenge: a post joined with its challenge data and challenge type.
#[derive(Debug, PartialEq)]
pub struct Challenge {
    pub post: Post,
    pub data: ChallengeData,
    pub challenge_type: ChallengeType,
}

/// The response-specific columns, keyed by the post they extend.
#[derive(Debug, PartialEq)]
pub struct ResponseData {
    pub post_id: i32,
    pub challenge_id: i32,
    pub code: String,
}

/// A response: a post joined with its response data.
#[derive(Debug, PartialEq)]
pub struct Response {
    pub post: Post,
    pub data: ResponseData,
}

/// A comment record.
#[derive(Debug, PartialEq)]
pub struct Comment {
    pub id: i32,
    pub post_id: i32,
    pub body: String,
    pub user_id: i32,
    pub created_at: i64,
    pub updated_at: Option<i64>,
}

/// One record out of any of the collections, as returned by a global lookup.
#[derive(Debug, PartialEq)]
pub enum SchemaModel {
    Challenge(Challenge),
    Comment(Comment),
    ChallengeType(ChallengeType),
    Response(Response),
    User(User),
}

/// The fixed, closed set of collections that cursors may name.
#[derive(Clone, Copy, Debug, PartialEq, Eq, Structural, Hash)]
pub enum SchemaTable {
    Challenges,
    Comments,
    ChallengeTypes,
    Responses,
    Users,
}

/// The name under which a collection appears inside a cursor, as bytes.
pub open spec fn table_name_bytes(t: SchemaTable) -> Seq<u8> {
    match t {
        SchemaTable::Challenges => seq![99u8, 104u8, 97u8, 108u8, 108u8, 101u8, 110u8, 103u8, 101u8, 115u8],
        SchemaTable::Comments => seq![99u8, 111u8, 109u8, 109u8, 101u8, 110u8, 116u8, 115u8],
        SchemaTable::ChallengeTypes => seq![
            99u8, 104u8, 97u8, 108u8, 108u8, 101u8, 110u8, 103u8, 101u8, 95u8, 116u8, 121u8,
            112u8, 101u8, 115u8,
        ],
        SchemaTable::Responses => seq![114u8, 101u8, 115u8, 112u8, 111u8, 110u8, 115u8, 101u8, 115u8],
        SchemaTable::Users => seq![117u8, 115u8, 101u8, 114u8, 115u8],
    }
}


impl Clone for User {
    /// An exact copy of the record.
    fn clone(&self) -> (r: User)
        ensures
            r == *self,
    {
        User {
            id: self.id,
            name: self.name.clone(),
            profile: self.profile.clone(),
            created_at: self.created_at,
            updated_at: self.updated_at,
            deleted_at: self.deleted_at,
        }
    }
}

impl Clone for Post {
    /// An exact copy of the record.
    fn clone(&self) -> (r: Post)
        ensures
            r == *self,
    {
        Post {
            id: self.id,
            title: self.title.clone(),
            body: self.body.clone(),
            user_id: self.user_id,
            created_at: self.created_at,
            updated_at: self.updated_at,
            deleted_at: self.deleted_at,
        }
    }
}

impl Clone for ChallengeData {
    /// An exact copy of the record.
    fn clone(&self) -> (r: ChallengeData)
        ensures
            r == *self,
    {
        ChallengeData { post_id: self.post_id, challenge_type_id: self.challenge_type_id }
    }
}

impl Clone for ChallengeType {
    /// An exact copy of the record.
    fn clone(&self) -> (r: ChallengeType)
        ensures
            r == *self,
    {
        ChallengeType {
            id: self.id,
            name: self.name.clone(),
            description: self.description.clone(),
        }
    }
}

impl Clone for Challenge {
    /// An exact copy of the record.
    fn clone(&self) -> (r: Challenge)
        ensures
            r == *self,
    {
        Challenge {
            post: self.post.clone(),
            data: self.data.clone(),
            challenge_type: self.challenge_type.clone(),
        }
    }
}

impl Clone for ResponseData {
    /// An exact copy of the record.
    fn clone(&self) -> (r: ResponseData)
        ensures
            r == *self,
    {
        ResponseData {
            post_id: self.post_id,
            challenge_id: self.challenge_id,
            code: self.code.clone(),
        }
    }
}

impl Clone for Response {
    /// An exact copy of the record.
    fn clone(&self) -> (r: Response)
        ensures
            r == *self,
    {
        Response { post: self.post.clone(), data: self.data.clone() }
    }
}

impl Clone for Comment {
    /// An exact copy of the record.
    fn clone(&self) -> (r: Comment)
        ensures
            r == *self,
    {
        Comment {
            id: self.id,
            post_id: self.post_id,
            body: self.body.clone(),
            user_id: self.user_id,
            created_at: self.created_at,
            updated_at: self.updated_at,
        }
    }
}

/// The error returned when a string names no known collection.
#[derive(Debug, PartialEq)]
pub struct InvalidTableNameError(pub String);

impl InvalidTableNameError {
    /// The name that was not recognized.
    pub fn table_name(&self) -> (r: &String)
        ensures
            r == self.0,
    {
        &self.0
    }
}

impl SchemaTable {
    /// Appends this collection's cursor name to a byte buffer.
    pub fn push_name_bytes(&self, out: &mut Vec<u8>)
        ensures
            final(out)@ == old(out)@ + table_name_bytes(*self),
    {
        match self {
            SchemaTable::Challenges => {
                out.push(99);
                out.push(104);
                out.push(97);
                out.push(108);
                out.push(108);
                out.push(101);
                out.push(110);
                out.push(103);
                out.push(101);
                out.push(115);
            },
            SchemaTable::Comments => {
                out.push(99);
                out.push(111);
                out.push(109);
                out.push(109);
                out.push(101);
                out.push(110);
                out.push(116);
                out.push(115);
            },
            SchemaTable::ChallengeTypes => {
                out.push(99);
                out.push(104);
                out.push(97);
                out.push(108);
                out.push(108);
                out.push(101);
                out.push(110);
                out.push(103);
                out.push(101);
                out.push(95);
                out.push(116);
                out.push(121);
                out.push(112);
                out.push(101);
                out.push(115);
            },
            SchemaTable::Responses => {
                out.push(114);
                out.push(101);
                out.push(115);
                out.push(112);
                out.push(111);
                out.push(110);
                out.push(115);
                out.push(101);
                out.push(115);
            },
            SchemaTable::Users => {
                out.push(117);
                out.push(115);
                out.push(101);
                out.push(114);
                out.push(115);
            },
        }
        proof {
            assert(out@ =~= old(out)@ + table_name_bytes(*self));
        }
    }
}

/// Compares a byte string against one collection's cursor name.
fn name_eq(bytes: &[u8], t: SchemaTable) -> (r: bool)
    ensures
        r == (bytes@ == table_name_bytes(t)),
{
    let mut name: Vec<u8> = Vec::new();
    t.push_name_bytes(&mut name);
    if bytes.len() != name.len() {
        return false;
    }
    let mut j: usize = 0;
    while j < name.len()
        invariant
            j <= name@.len(),
            bytes@.len() == name@.len(),
            name@ == table_name_bytes(t),
            forall|x: int| 0 <= x < j ==> bytes@[x] == name@[x],
        decreases name@.len() - j,
    {
        if *bytes.get(j).unwrap() != *name.get(j).unwrap() {
            return false;
        }
        j = j + 1;
    }
    proof {
        assert(bytes@ =~= name@);
    }
    true
}

impl SchemaTable {
    /// Resolves a collection name to its table, rejecting names outside the
    /// known set: succeeds exactly on the five known collection names.
    pub fn from_str(s: &str) -> (r: Result<SchemaTable, InvalidTableNameError>)
        ensures
            r matches Ok(t) ==> s.spec_bytes() == table_name_bytes(t),
            r matches Err(e) ==> e.0@ == s@,
            (r is Err <==> forall|t: SchemaTable|
                s.spec_bytes() != #[trigger] table_name_bytes(t)),
    {
        let bytes: &[u8] = s.as_bytes();
        if name_eq(bytes, SchemaTable::Challenges) {
            return Ok(SchemaTable::Challenges);
        }
        if name_eq(bytes, SchemaTable::Comments) {
            return Ok(SchemaTable::Comments);
        }
        if name_eq(bytes, SchemaTable::ChallengeTypes) {
            return Ok(SchemaTable::ChallengeTypes);
        }
        if name_eq(bytes, SchemaTable::Responses) {
            return Ok(SchemaTable::Responses);
        }
        if name_eq(bytes, SchemaTable::Users) {
            return Ok(SchemaTable::Users);
        }
        proof {
            assert forall|t: SchemaTable| s.spec_bytes() != table_name_bytes(t) by {
                match t {
                    SchemaTable::Challenges => {},
                    SchemaTable::Comments => {},
                    SchemaTable::ChallengeTypes => {},
                    SchemaTable::Responses => {},
                    SchemaTable::Users => {},
                }
            }
        }
        Err(InvalidTableNameError(s.to_owned()))
    }
}

/// Collection names never contain the cursor delimiter.
pub proof fn lemma_table_names_colon_free(t: SchemaTable)
    ensures
        forall|j: int| 0 <= j < table_name_bytes(t).len() ==> table_name_bytes(t)[j] != 58u8,
{
}

/// Distinct collections have distinct cursor names.
pub proof fn lemma_table_names_distinct(t1: SchemaTable, t2: SchemaTable)
    requires
        table_name_bytes(t1) == table_name_bytes(t2),
    ensures
        t1 == t2,
{
    assert(table_name_bytes(t1).len() == table_name_bytes(t2).len());
}

} // verus!
