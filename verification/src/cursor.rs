//! The cursor codec: an opaque string form for `(collection, id)` pairs.
//!
//! A cursor payload is the collection's name, a `:` delimiter, and the id in
//! canonical decimal, passed through base64 (URL-safe alphabet, padded).
//! Only canonical strings decode: every successful decode is the encoding of
//! exactly one pair, so round-trips hold in both directions.

use vstd::prelude::*;

use crate::errors::CursorError;
use crate::models::SchemaTable;
use crate::models::lemma_table_names_colon_free;
use crate::models::lemma_table_names_distinct;
use crate::models::table_name_bytes;

verus! {

/// What the base64 url-safe padded encoding makes of a byte sequence.
pub uninterp spec fn b64_encoding(bytes: Seq<u8>) -> Seq<char>;

/// Relies on base64's `URL_SAFE` engine: `encode` returns the padded url-safe
/// encoding of the input bytes, a pure function of them.
#[verifier::external_body]
fn b64_encode(bytes: &Vec<u8>) -> (r: String)
    ensures
        r@ == b64_encoding(bytes@),
{
    base64::Engine::encode(&base64::prelude::BASE64_URL_SAFE, bytes)
}

#[verifier::external_type_specification]
#[verifier::external_body]
pub struct ExDecodeError(base64::DecodeError);

/// Relies on base64's `URL_SAFE` decode: with canonical padding required and
/// trailing bits rejected, it succeeds exactly on the encodings that
/// `URL_SAFE.encode` produces, and inverts them.
#[verifier::external_body]
fn b64_decode(s: &str) -> (r: Result<Vec<u8>, base64::DecodeError>)
    ensures
        match r {
            Ok(d) => b64_encoding(d@) == s@ && (forall|b: Seq<u8>|
                b64_encoding(b) == s@ ==> b == d@),
            Err(_) => forall|b: Seq<u8>| b64_encoding(b) != s@,
        },
{
    base64::Engine::decode(&base64::prelude::BASE64_URL_SAFE, s)
}

/// The decimal digits of `n`, most significant first, no leading zeros.
pub open spec fn dec_digits(n: nat) -> Seq<u8>
    decreases n,
{
    if n < 10 {
        seq![(48 + n) as u8]
    } else {
        dec_digits(n / 10).push((48 + n % 10) as u8)
    }
}

/// The number a digit string denotes.
pub open spec fn dec_value(s: Seq<u8>) -> nat
    decreases s.len(),
{
    if s.len() == 0 {
        0
    } else {
        (dec_value(s.drop_last()) * 10 + (s.last() - 48)) as nat
    }
}

pub open spec fn is_dec_digit(b: u8) -> bool {
    48 <= b <= 57
}

pub open spec fn all_dec_digits(s: Seq<u8>) -> bool {
    forall|j: int| 0 <= j < s.len() ==> is_dec_digit(#[trigger] s[j])
}

/// A digit string in the canonical form `dec_digits` produces.
pub open spec fn canonical_digits(s: Seq<u8>) -> bool {
    &&& s.len() >= 1
    &&& all_dec_digits(s)
    &&& (s.len() == 1 || s[0] != 48)
}

/// `dec_digits` produces canonical digit strings, with a leading zero only
/// for zero itself.
pub proof fn lemma_dec_digits_canonical(n: nat)
    ensures
        canonical_digits(dec_digits(n)),
        n >= 1 ==> dec_digits(n)[0] != 48,
        n >= 10 ==> dec_digits(n).len() >= 2,
    decreases n,
{
    if n < 10 {
    } else {
        lemma_dec_digits_canonical(n / 10);
        let s = dec_digits(n);
        let p = dec_digits(n / 10);
        assert(s == p.push((48 + n % 10) as u8));
        assert(s[0] == p[0]);
        assert forall|j: int| 0 <= j < s.len() implies is_dec_digit(s[j]) by {
            if j < p.len() {
                assert(s[j] == p[j]);
            }
        }
    }
}

/// Reading back the digits of `n` gives `n`.
pub proof fn lemma_dec_digits_value(n: nat)
    ensures
        dec_value(dec_digits(n)) == n,
    decreases n,
{
    if n < 10 {
        let s = dec_digits(n);
        assert(s =~= seq![(48 + n) as u8]);
        assert(s.len() == 1);
        assert(s.drop_last() =~= Seq::<u8>::empty());
        assert(dec_value(s.drop_last()) == 0);
        assert(s.last() == (48 + n) as u8);
        assert((48 + n) as u8 == 48 + n);
        assert(dec_value(s) == (0 * 10 + ((48 + n) as u8 - 48)) as nat);
    } else {
        lemma_dec_digits_value(n / 10);
        let p = dec_digits(n / 10);
        let s = dec_digits(n);
        assert(s.drop_last() =~= p);
        assert(s.last() == (48 + n % 10) as u8);
    }
}

/// A digit string whose first digit is nonzero denotes a nonzero number.
pub proof fn lemma_dec_value_positive(s: Seq<u8>)
    requires
        s.len() >= 1,
        all_dec_digits(s),
        s[0] != 48,
    ensures
        dec_value(s) >= 1,
    decreases s.len(),
{
    if s.len() == 1 {
    } else {
        let p = s.drop_last();
        assert(p[0] == s[0]);
        assert forall|j: int| 0 <= j < p.len() implies is_dec_digit(p[j]) by {
            assert(p[j] == s[j]);
        }
        lemma_dec_value_positive(p);
    }
}

/// Each canonical digit string is the digit string of its own value: the
/// digit form is unique.
pub proof fn lemma_canonical_digits_unique(s: Seq<u8>)
    requires
        canonical_digits(s),
    ensures
        dec_digits(dec_value(s)) == s,
    decreases s.len(),
{
    if s.len() == 1 {
        assert(s.drop_last() =~= Seq::<u8>::empty());
        assert(dec_value(s.drop_last()) == 0);
        assert(s.last() == s[0]);
        assert(dec_value(s) == (0 * 10 + (s[0] - 48)) as nat);
        assert(dec_digits(dec_value(s)) =~= s);
    } else {
        let p = s.drop_last();
        assert(p[0] == s[0]);
        assert forall|j: int| 0 <= j < p.len() implies is_dec_digit(p[j]) by {
            assert(p[j] == s[j]);
        }
        assert(canonical_digits(p));
        lemma_canonical_digits_unique(p);
        lemma_dec_value_positive(p);
        let v = dec_value(s);
        assert(v == dec_value(p) * 10 + (s.last() - 48));
        assert(v >= 10);
        assert(v / 10 == dec_value(p) && v % 10 == s.last() - 48) by (nonlinear_arith)
            requires
                v == dec_value(p) * 10 + (s.last() - 48),
                48 <= s.last() <= 57,
        ;
        assert(dec_digits(v) == dec_digits(dec_value(p)).push((48 + v % 10) as u8));
        assert(dec_digits(v) =~= s);
    }
}

/// The value of a digit-string prefix never exceeds the whole string's value.
pub proof fn lemma_dec_value_prefix(s: Seq<u8>, j: int)
    requires
        all_dec_digits(s),
        0 <= j <= s.len(),
    ensures
        dec_value(s.take(j)) <= dec_value(s),
    decreases s.len() - j,
{
    if j == s.len() {
        assert(s.take(j) =~= s);
    } else {
        let t = s.take(j + 1);
        assert(t.drop_last() =~= s.take(j));
        assert(t.last() == s[j]);
        assert(dec_value(s.take(j)) <= dec_value(s.take(j + 1)));
        lemma_dec_value_prefix(s, j + 1);
    }
}

/// Appends the canonical decimal digits of `n`.
fn push_dec_digits(out: &mut Vec<u8>, n: u32)
    ensures
        final(out)@ == old(out)@ + dec_digits(n as nat),
    decreases n,
{
    if n < 10 {
        out.push(48 + (n as u8));
        proof {
            assert(out@ =~= old(out)@ + dec_digits(n as nat));
        }
    } else {
        push_dec_digits(out, n / 10);
        out.push(48 + ((n % 10) as u8));
        proof {
            assert(out@ =~= old(out)@ + dec_digits(n as nat));
        }
    }
}

/// The byte form of an id: canonical decimal, with a leading `-` sign for
/// negative values.
pub open spec fn id_bytes(i: int) -> Seq<u8> {
    if i < 0 {
        seq![45u8] + dec_digits((-i) as nat)
    } else {
        dec_digits(i as nat)
    }
}

/// Distinct ids have distinct byte forms.
pub proof fn lemma_id_bytes_injective(i1: int, i2: int)
    requires
        id_bytes(i1) == id_bytes(i2),
    ensures
        i1 == i2,
{
    lemma_dec_digits_canonical((if i1 < 0 { -i1 } else { i1 }) as nat);
    lemma_dec_digits_canonical((if i2 < 0 { -i2 } else { i2 }) as nat);
    if i1 < 0 && i2 >= 0 {
        assert(id_bytes(i1)[0] == 45);
        assert(id_bytes(i2)[0] != 45);
    } else if i1 >= 0 && i2 < 0 {
        assert(id_bytes(i1)[0] != 45);
        assert(id_bytes(i2)[0] == 45);
    } else if i1 >= 0 && i2 >= 0 {
        lemma_dec_digits_value(i1 as nat);
        lemma_dec_digits_value(i2 as nat);
    } else {
        let d1 = dec_digits((-i1) as nat);
        let d2 = dec_digits((-i2) as nat);
        assert(d1 =~= id_bytes(i1).skip(1));
        assert(d2 =~= id_bytes(i2).skip(1));
        lemma_dec_digits_value((-i1) as nat);
        lemma_dec_digits_value((-i2) as nat);
    }
}

/// Appends the byte form of `id`.
fn push_id_bytes(out: &mut Vec<u8>, id: i32)
    ensures
        final(out)@ == old(out)@ + id_bytes(id as int),
{
    if id >= 0 {
        push_dec_digits(out, id as u32);
    } else {
        out.push(45);
        let mag: u32 = (-(id as i64)) as u32;
        push_dec_digits(out, mag);
        proof {
            assert(out@ =~= old(out)@ + id_bytes(id as int));
        }
    }
}

/// The byte payload of a cursor: collection name, delimiter, id.
pub open spec fn cursor_payload(t: SchemaTable, id: i32) -> Seq<u8> {
    table_name_bytes(t) + seq![58u8] + id_bytes(id as int)
}

/// The string form of a cursor: the base64 encoding of its payload.
pub open spec fn encoded_cursor(t: SchemaTable, id: i32) -> Seq<char> {
    b64_encoding(cursor_payload(t, id))
}

/// `k` is the position of the first delimiter in `d`.
pub open spec fn first_colon_at(d: Seq<u8>, k: int) -> bool {
    &&& 0 <= k < d.len()
    &&& d[k] == 58u8
    &&& forall|j: int| 0 <= j < k ==> d[j] != 58u8
}

pub open spec fn contains_colon(d: Seq<u8>) -> bool {
    exists|k: int| first_colon_at(d, k)
}

/// `p` is the cursor name of some known collection.
pub open spec fn known_collection(p: Seq<u8>) -> bool {
    exists|t: SchemaTable| p == #[trigger] table_name_bytes(t)
}

/// `s` is the byte form of some id that fits in 32 bits.
pub open spec fn parseable_id(s: Seq<u8>) -> bool {
    exists|i: int| i32::MIN <= i <= i32::MAX && s == #[trigger] id_bytes(i)
}

/// The delimiter of a payload stands right after the collection name, before
/// anything else.
pub proof fn lemma_payload_first_colon(t: SchemaTable, id: i32)
    ensures
        first_colon_at(cursor_payload(t, id), table_name_bytes(t).len() as int),
        cursor_payload(t, id).take(table_name_bytes(t).len() as int) == table_name_bytes(t),
        cursor_payload(t, id).skip(table_name_bytes(t).len() as int + 1) == id_bytes(id as int),
{
    let d = cursor_payload(t, id);
    let nl = table_name_bytes(t).len() as int;
    lemma_table_names_colon_free(t);
    assert(d[nl] == 58u8);
    assert(forall|j: int| 0 <= j < nl ==> d[j] == table_name_bytes(t)[j]);
    assert(d.take(nl) =~= table_name_bytes(t));
    assert(d.skip(nl + 1) =~= id_bytes(id as int));
}

/// Two distinct cursors have distinct payloads: the byte form pins the
/// collection and the id down.
pub proof fn lemma_cursor_payload_injective(t1: SchemaTable, id1: i32, t2: SchemaTable, id2: i32)
    requires
        cursor_payload(t1, id1) == cursor_payload(t2, id2),
    ensures
        t1 == t2 && id1 == id2,
{
    let d = cursor_payload(t1, id1);
    let n1 = table_name_bytes(t1).len() as int;
    let n2 = table_name_bytes(t2).len() as int;
    lemma_payload_first_colon(t1, id1);
    lemma_payload_first_colon(t2, id2);
    if n1 < n2 {
        assert(d[n1] == 58u8);
        assert(d[n1] != 58u8);
    } else if n2 < n1 {
        assert(d[n2] == 58u8);
        assert(d[n2] != 58u8);
    }
    assert(table_name_bytes(t1) == table_name_bytes(t2));
    lemma_table_names_distinct(t1, t2);
    assert(id_bytes(id1 as int) == id_bytes(id2 as int));
    lemma_id_bytes_injective(id1 as int, id2 as int);
}

/// Finds the position of the first delimiter byte, if any.
fn find_first_colon(d: &Vec<u8>) -> (r: Option<usize>)
    ensures
        match r {
            Some(k) => first_colon_at(d@, k as int),
            None => !contains_colon(d@),
        },
{
    let mut j: usize = 0;
    while j < d.len()
        invariant
            j <= d@.len(),
            forall|x: int| 0 <= x < j ==> d@[x] != 58u8,
        decreases d@.len() - j,
    {
        if *d.get(j).unwrap() == 58 {
            return Some(j);
        }
        j = j + 1;
    }
    proof {
        assert forall|k: int| !first_colon_at(d@, k) by {}
    }
    None
}

/// Compares the first `end` bytes of `d` against one collection's name.
fn prefix_matches(d: &Vec<u8>, end: usize, t: SchemaTable) -> (r: bool)
    requires
        end <= d@.len(),
    ensures
        r == (d@.take(end as int) == table_name_bytes(t)),
{
    let mut name: Vec<u8> = Vec::new();
    t.push_name_bytes(&mut name);
    if name.len() != end {
        proof {
            assert(d@.take(end as int).len() == end as int);
        }
        return false;
    }
    let mut j: usize = 0;
    while j < end
        invariant
            j <= end,
            end <= d@.len(),
            name@ == table_name_bytes(t),
            name@.len() == end as int,
            forall|x: int| 0 <= x < j ==> d@[x] == name@[x],
        decreases end - j,
    {
        if *d.get(j).unwrap() != *name.get(j).unwrap() {
            proof {
                assert(d@.take(end as int)[j as int] != table_name_bytes(t)[j as int]);
            }
            return false;
        }
        j = j + 1;
    }
    proof {
        assert(d@.take(end as int) =~= name@);
    }
    true
}

/// Looks the first `end` bytes of `d` up in the known collection set.
fn match_table(d: &Vec<u8>, end: usize) -> (r: Option<SchemaTable>)
    requires
        end <= d@.len(),
    ensures
        match r {
            Some(t) => d@.take(end as int) == table_name_bytes(t),
            None => !known_collection(d@.take(end as int)),
        },
{
    if prefix_matches(d, end, SchemaTable::Challenges) {
        return Some(SchemaTable::Challenges);
    }
    if prefix_matches(d, end, SchemaTable::Comments) {
        return Some(SchemaTable::Comments);
    }
    if prefix_matches(d, end, SchemaTable::ChallengeTypes) {
        return Some(SchemaTable::ChallengeTypes);
    }
    if prefix_matches(d, end, SchemaTable::Responses) {
        return Some(SchemaTable::Responses);
    }
    if prefix_matches(d, end, SchemaTable::Users) {
        return Some(SchemaTable::Users);
    }
    proof {
        assert forall|t: SchemaTable| d@.take(end as int) != table_name_bytes(t) by {
            match t {
                SchemaTable::Challenges => {},
                SchemaTable::Comments => {},
                SchemaTable::ChallengeTypes => {},
                SchemaTable::Responses => {},
                SchemaTable::Users => {},
            }
        }
    }
    None
}

/// Reads a strict canonical id from `d[from..]`: an optional `-`, then
/// digits without a leading zero, denoting a value that fits in 32 bits.
fn parse_id(d: &Vec<u8>, from: usize) -> (r: Result<i32, ()>)
    requires
        from <= d@.len(),
    ensures
        match r {
            Ok(i) => d@.skip(from as int) == id_bytes(i as int),
            Err(_) => !parseable_id(d@.skip(from as int)),
        },
{
    let ghost sub = d@.skip(from as int);
    let len = d.len();
    if from == len {
        proof {
            assert forall|i: int| i32::MIN <= i <= i32::MAX implies sub != id_bytes(i) by {
                lemma_dec_digits_canonical((if i < 0 { -i } else { i }) as nat);
                assert(sub.len() == 0);
                if i >= 0 {
                    assert(id_bytes(i).len() >= 1);
                } else {
                    assert(id_bytes(i).len() == 1 + dec_digits((-i) as nat).len());
                }
            }
        }
        return Err(());
    }
    let neg: bool = *d.get(from).unwrap() == 45;
    let start: usize = if neg { from + 1 } else { from };
    if start == len {
        proof {
            assert forall|i: int| i32::MIN <= i <= i32::MAX implies sub != id_bytes(i) by {
                lemma_dec_digits_canonical((if i < 0 { -i } else { i }) as nat);
                if i >= 0 {
                    assert(id_bytes(i)[0] != 45) by {
                        assert(is_dec_digit(id_bytes(i)[0]));
                    }
                } else {
                    assert(id_bytes(i).len() >= 2);
                }
            }
        }
        return Err(());
    }
    if *d.get(start).unwrap() == 48 && start + 1 < len {
        proof {
            assert forall|i: int| i32::MIN <= i <= i32::MAX implies sub != id_bytes(i) by {
                lemma_dec_digits_canonical((if i < 0 { -i } else { i }) as nat);
                if sub == id_bytes(i) {
                    if i >= 0 {
                        assert(id_bytes(i)[0] != 45) by {
                            assert(is_dec_digit(id_bytes(i)[0]));
                        }
                        assert(!neg);
                        assert(id_bytes(i)[0] == d@[start as int]);
                        assert(id_bytes(i).len() >= 2);
                        assert(dec_digits(i as nat)[0] != 48);
                    } else {
                        assert(id_bytes(i)[0] == 45);
                        assert(neg) by {
                            assert(sub[0] == d@[from as int]);
                        }
                        assert(dec_digits((-i) as nat)[0] == sub[1]);
                        assert(sub[1] == d@[start as int]);
                        assert(dec_digits((-i) as nat).len() == sub.len() - 1);
                        assert(dec_digits((-i) as nat).len() >= 2);
                        assert(dec_digits((-i) as nat)[0] != 48);
                    }
                }
            }
        }
        return Err(());
    }
    let ghost digits_whole = d@.subrange(start as int, len as int);
    let mut acc: u64 = 0;
    let mut j: usize = start;
    while j < len
        invariant
            start <= j <= len,
            len == d@.len(),
            start < len,
            from <= start <= from + 1,
            sub == d@.skip(from as int),
            digits_whole == d@.subrange(start as int, len as int),
            neg ==> (start == from + 1 && d@[from as int] == 45),
            !neg ==> (start == from && d@[from as int] != 45),
            start + 1 < len ==> d@[start as int] != 48,
            acc <= 2147483648u64,
            all_dec_digits(d@.subrange(start as int, j as int)),
            acc as nat == dec_value(d@.subrange(start as int, j as int)),
        decreases len - j,
    {
        let b: u8 = *d.get(j).unwrap();
        if b < 48 || b > 57 {
            proof {
                assert forall|i: int| i32::MIN <= i <= i32::MAX implies sub != id_bytes(i) by {
                    lemma_dec_digits_canonical((if i < 0 { -i } else { i }) as nat);
                    if sub == id_bytes(i) {
                        if i >= 0 {
                            assert(id_bytes(i)[0] != 45) by {
                                assert(is_dec_digit(id_bytes(i)[0]));
                            }
                            assert(!neg) by {
                                assert(sub[0] == d@[from as int]);
                            }
                            assert(d@[j as int] == dec_digits(i as nat)[j - from]);
                            assert(is_dec_digit(d@[j as int]));
                        } else {
                            assert(id_bytes(i)[0] == 45);
                            assert(neg) by {
                                assert(sub[0] == d@[from as int]);
                            }
                            assert(sub.len() == len - from);
                            assert(dec_digits((-i) as nat).len() == sub.len() - 1);
                            assert(d@[j as int] == sub[j - from]);
                            assert(sub[j - from] == (seq![45u8] + dec_digits((-i) as nat))[j
                                - from]);
                            assert(sub[j - from] == dec_digits((-i) as nat)[j - from - 1]);
                            assert(is_dec_digit(d@[j as int]));
                        }
                    }
                }
            }
            return Err(());
        }
        let acc2: u64 = acc * 10 + ((b - 48) as u64);
        proof {
            let pre = d@.subrange(start as int, j as int);
            let cur = d@.subrange(start as int, j as int + 1);
            assert(cur.drop_last() =~= pre);
            assert(cur.last() == d@[j as int]);
            assert(acc2 as nat == dec_value(cur));
        }
        if acc2 > 2147483648 {
            proof {
                assert forall|i: int| i32::MIN <= i <= i32::MAX implies sub != id_bytes(i) by {
                    lemma_dec_digits_canonical((if i < 0 { -i } else { i }) as nat);
                    if sub == id_bytes(i) {
                        let m: nat = (if i < 0 { -i } else { i }) as nat;
                        lemma_dec_digits_value(m);
                        let ds = dec_digits(m);
                        if i >= 0 {
                            assert(id_bytes(i)[0] != 45) by {
                                assert(is_dec_digit(id_bytes(i)[0]));
                            }
                            assert(!neg) by {
                                assert(sub[0] == d@[from as int]);
                            }
                            assert(ds =~= sub);
                            assert(digits_whole =~= sub);
                        } else {
                            assert(id_bytes(i)[0] == 45);
                            assert(neg) by {
                                assert(sub[0] == d@[from as int]);
                            }
                            assert(sub.len() == len - from);
                            assert(ds.len() == sub.len() - 1);
                            assert(ds =~= sub.skip(1));
                            assert(digits_whole =~= sub.skip(1));
                        }
                        assert(ds == digits_whole);
                        lemma_dec_value_prefix(digits_whole, j - start + 1);
                        assert(d@.subrange(start as int, j as int + 1) =~= digits_whole.take(
                            j - start + 1,
                        ));
                        assert(dec_value(digits_whole) == m);
                        assert(m <= 2147483648);
                    }
                }
            }
            return Err(());
        }
        acc = acc2;
        j = j + 1;
    }
    proof {
        assert(d@.subrange(start as int, len as int) =~= digits_whole);
        assert(acc as nat == dec_value(digits_whole));
        assert(canonical_digits(digits_whole));
    }
    if neg {
        if acc == 0 {
            proof {
                assert forall|i: int| i32::MIN <= i <= i32::MAX implies sub != id_bytes(i) by {
                    lemma_dec_digits_canonical((if i < 0 { -i } else { i }) as nat);
                    if sub == id_bytes(i) {
                        if i >= 0 {
                            assert(id_bytes(i)[0] != 45) by {
                                assert(is_dec_digit(id_bytes(i)[0]));
                            }
                            assert(sub[0] == d@[from as int]);
                        } else {
                            lemma_dec_digits_value((-i) as nat);
                            assert(dec_digits((-i) as nat) =~= sub.skip(1));
                            assert(digits_whole =~= sub.skip(1));
                        }
                    }
                }
            }
            return Err(());
        }
        proof {
            lemma_canonical_digits_unique(digits_whole);
            assert(digits_whole == dec_digits(acc as nat));
            assert(sub =~= seq![45u8] + digits_whole);
        }
        let v: i64 = -(acc as i64);
        proof {
            assert(id_bytes(v as int) == seq![45u8] + dec_digits((-(v as int)) as nat));
            assert(sub == id_bytes(v as int));
        }
        Ok(v as i32)
    } else {
        if acc > 2147483647 {
            proof {
                assert forall|i: int| i32::MIN <= i <= i32::MAX implies sub != id_bytes(i) by {
                    lemma_dec_digits_canonical((if i < 0 { -i } else { i }) as nat);
                    if sub == id_bytes(i) {
                        if i < 0 {
                            assert(id_bytes(i)[0] == 45);
                            assert(sub[0] == d@[from as int]);
                        } else {
                            lemma_dec_digits_value(i as nat);
                            assert(dec_digits(i as nat) =~= sub);
                            assert(digits_whole =~= sub);
                        }
                    }
                }
            }
            return Err(());
        }
        proof {
            lemma_canonical_digits_unique(digits_whole);
            assert(digits_whole == dec_digits(acc as nat));
            assert(sub =~= digits_whole);
        }
        Ok(acc as i32)
    }
}

/// Reads a decoded payload back into a cursor, classifying each failure.
fn parse_cursor_payload(d: &Vec<u8>) -> (r: Result<NodeId, CursorError>)
    ensures
        (match r {
            Ok(n) => d@ == cursor_payload(n.0, n.1),
            Err(_) => true,
        }),
        forall|t: SchemaTable, id: i32|
            d@ == cursor_payload(t, id) ==> r == Ok::<NodeId, CursorError>(NodeId(t, id)),
        (r == Err::<NodeId, CursorError>(CursorError::MalformedCursor) <==> !contains_colon(d@)),
        (r == Err::<NodeId, CursorError>(CursorError::UnknownCollection) <==> (exists|k: int|
            first_colon_at(d@, k) && !known_collection(d@.take(k)))),
        (r == Err::<NodeId, CursorError>(CursorError::InvalidId) <==> (exists|k: int|
            first_colon_at(d@, k) && known_collection(d@.take(k)) && !parseable_id(
                d@.skip(k + 1),
            ))),
{
    match find_first_colon(d) {
        None => {
            proof {
                assert forall|t: SchemaTable, id: i32| d@ != cursor_payload(t, id) by {
                    lemma_payload_first_colon(t, id);
                }
            }
            Err(CursorError::MalformedCursor)
        },
        Some(k) => {
            let dlen = d.len();
            proof {
                assert(first_colon_at(d@, k as int));
                assert(k < dlen);
            }
            match match_table(d, k) {
                None => {
                    proof {
                        assert(first_colon_at(d@, k as int) && !known_collection(
                            d@.take(k as int),
                        ));
                        assert forall|t: SchemaTable, id: i32| d@ != cursor_payload(t, id) by {
                            lemma_payload_first_colon(t, id);
                            if d@ == cursor_payload(t, id) {
                                let nl = table_name_bytes(t).len() as int;
                                assert(first_colon_at(d@, nl));
                                assert(nl == k as int) by {
                                    if nl < k as int {
                                        assert(d@[nl] != 58u8);
                                    } else if (k as int) < nl {
                                        assert(d@[k as int] != 58u8);
                                    }
                                }
                                assert(d@.take(k as int) == table_name_bytes(t));
                            }
                        }
                        assert forall|k2: int|
                            first_colon_at(d@, k2) && known_collection(d@.take(k2))
                                implies false by {
                            assert(k2 == k as int) by {
                                if k2 < k as int {
                                    assert(d@[k2] != 58u8);
                                } else if (k as int) < k2 {
                                    assert(d@[k as int] != 58u8);
                                }
                            }
                        }
                    }
                    Err(CursorError::UnknownCollection)
                },
                Some(t) => {
                    proof {
                        assert(known_collection(d@.take(k as int)));
                    }
                    match parse_id(d, k + 1) {
                        Err(_) => {
                            proof {
                                assert(first_colon_at(d@, k as int) && known_collection(
                                    d@.take(k as int),
                                ) && !parseable_id(d@.skip(k as int + 1)));
                                assert forall|t2: SchemaTable, id: i32|
                                    d@ != cursor_payload(t2, id) by {
                                    lemma_payload_first_colon(t2, id);
                                    if d@ == cursor_payload(t2, id) {
                                        let nl = table_name_bytes(t2).len() as int;
                                        assert(nl == k as int) by {
                                            if nl < k as int {
                                                assert(d@[nl] != 58u8);
                                            } else if (k as int) < nl {
                                                assert(d@[k as int] != 58u8);
                                            }
                                        }
                                        assert(d@.skip(k as int + 1) == id_bytes(id as int));
                                        assert(parseable_id(d@.skip(k as int + 1)));
                                    }
                                }
                                assert forall|k2: int|
                                    first_colon_at(d@, k2) && !known_collection(d@.take(k2))
                                        implies false by {
                                    assert(k2 == k as int) by {
                                        if k2 < k as int {
                                            assert(d@[k2] != 58u8);
                                        } else if (k as int) < k2 {
                                            assert(d@[k as int] != 58u8);
                                        }
                                    }
                                }
                            }
                            Err(CursorError::InvalidId)
                        },
                        Ok(i) => {
                            proof {
                                assert(d@ =~= d@.take(k as int) + seq![d@[k as int]] + d@.skip(
                                    k as int + 1,
                                ));
                                assert(d@ == cursor_payload(t, i));
                                assert forall|t2: SchemaTable, id2: i32|
                                    d@ == cursor_payload(t2, id2) implies NodeId(t, i) == NodeId(
                                    t2,
                                    id2,
                                ) by {
                                    lemma_cursor_payload_injective(t, i, t2, id2);
                                }
                            }
                            Ok(NodeId(t, i))
                        },
                    }
                },
            }
        },
    }
}

/// An opaque pagination token naming one node: a collection and an id.
#[derive(Clone, Copy, Debug, PartialEq, Eq, Structural)]
pub struct NodeId(pub SchemaTable, pub i32);

impl NodeId {
    /// Encodes this cursor as its opaque string form.
    ///
    /// Together with the completeness clause of [`NodeId::decode`] this gives
    /// the round trip: decoding an encoded cursor returns the original pair.
    pub fn encode(&self) -> (r: String)
        ensures
            r@ == encoded_cursor(self.0, self.1),
    {
        let mut payload: Vec<u8> = Vec::new();
        self.0.push_name_bytes(&mut payload);
        payload.push(58);
        push_id_bytes(&mut payload, self.1);
        proof {
            assert(payload@ =~= cursor_payload(self.0, self.1));
        }
        b64_encode(&payload)
    }

    /// Decodes an opaque cursor string.
    ///
    /// Succeeds exactly on strings [`NodeId::encode`] produces: every `Ok`
    /// result's re-encoding is the input, and every encoded cursor decodes to
    /// the pair it was made from. Anything else is rejected:
    /// `MalformedCursor` when the string is not a canonical encoding of a
    /// delimited payload, `UnknownCollection` when the named collection is
    /// outside the known set, `InvalidId` when the id segment is not a
    /// canonical 32-bit decimal.
    pub fn decode(s: &str) -> (r: Result<NodeId, CursorError>)
        ensures
            (match r {
                Ok(n) => s@ == encoded_cursor(n.0, n.1),
                Err(_) => true,
            }),
            forall|t: SchemaTable, id: i32|
                s@ == encoded_cursor(t, id) ==> r == Ok::<NodeId, CursorError>(NodeId(t, id)),
            (r == Err::<NodeId, CursorError>(CursorError::MalformedCursor) <==> ((forall|
                d: Seq<u8>,
            | #[trigger] b64_encoding(d) != s@) || (exists|d: Seq<u8>|
                #[trigger] b64_encoding(d) == s@ && !contains_colon(d)))),
            (r == Err::<NodeId, CursorError>(CursorError::UnknownCollection) <==> (exists|
                d: Seq<u8>,
                k: int,
            |
                #![trigger b64_encoding(d), first_colon_at(d, k)]
                b64_encoding(d) == s@ && first_colon_at(d, k) && !known_collection(d.take(k)))),
            (r == Err::<NodeId, CursorError>(CursorError::InvalidId) <==> (exists|
                d: Seq<u8>,
                k: int,
            |
                #![trigger b64_encoding(d), first_colon_at(d, k)]
                b64_encoding(d) == s@ && first_colon_at(d, k) && known_collection(d.take(k))
                    && !parseable_id(d.skip(k + 1)))),
    {
        match b64_decode(s) {
            Err(_) => Err(CursorError::MalformedCursor),
            Ok(d) => {
                let r = parse_cursor_payload(&d);
                proof {
                    if r is Ok {
                        let n = r->Ok_0;
                        assert(s@ == encoded_cursor(n.0, n.1));
                    }
                    if r == Err::<NodeId, CursorError>(CursorError::UnknownCollection) {
                        let k = choose|k: int|
                            first_colon_at(d@, k) && !known_collection(d@.take(k));
                        assert(b64_encoding(d@) == s@ && first_colon_at(d@, k)
                            && !known_collection(d@.take(k)));
                    }
                    if r == Err::<NodeId, CursorError>(CursorError::InvalidId) {
                        let k = choose|k: int|
                            first_colon_at(d@, k) && known_collection(d@.take(k))
                                && !parseable_id(d@.skip(k + 1));
                        assert(b64_encoding(d@) == s@ && first_colon_at(d@, k)
                            && known_collection(d@.take(k)) && !parseable_id(d@.skip(k + 1)));
                    }
                    assert forall|d2: Seq<u8>, k2: int|
                        b64_encoding(d2) == s@ && #[trigger] first_colon_at(
                            d2,
                            k2,
                        ) implies d2 == d@ by {}
                }
                r
            },
        }
    }
}

} // verus!
