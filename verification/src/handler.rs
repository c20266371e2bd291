//! The decisions of the HTTP surface: how each gateway outcome maps to a
//! status code, and one handler per route that invokes the gateway and
//! shapes the response. The surrounding server owns the sockets and the
//! JSON wire format; everything it has to decide stands here.

use vstd::prelude::*;
use vstd::string::StrSliceExecFns;

use crate::todo::{apply_update_spec, CreateTodo, Todo, UpdateTodo};
use crate::todorepository::{contains_id, create_ok, remove_id, row_at, update_rows, views_of,
    RepositoryError, TodoRepository};

verus! {

/// The character is a decimal digit.
pub open spec fn is_digit(c: char) -> bool {
    ('0' as int) <= (c as int) && (c as int) <= ('9' as int)
}

/// The numeric value of a decimal digit.
pub open spec fn digit_val(c: char) -> int {
    (c as int) - ('0' as int)
}

/// Every character of the sequence is a decimal digit.
pub open spec fn all_digits(s: Seq<char>) -> bool {
    forall|i: int| 0 <= i < s.len() ==> is_digit(#[trigger] s[i])
}

/// The value of a sequence of decimal digits, most significant first.
pub open spec fn dec_val(s: Seq<char>) -> int
    decreases s.len(),
{
    if s.len() == 0 {
        0
    } else {
        dec_val(s.drop_last()) * 10 + digit_val(s.last())
    }
}

/// Whether the string carries a leading minus sign.
pub open spec fn has_minus(s: Seq<char>) -> bool {
    s.len() > 0 && s[0] == '-'
}

/// The digits of the string, the optional leading minus sign stripped.
pub open spec fn digits_of(s: Seq<char>) -> Seq<char> {
    if has_minus(s) {
        s.subrange(1, s.len() as int)
    } else {
        s
    }
}

/// The integer the string denotes.
pub open spec fn id_value(s: Seq<char>) -> int {
    if has_minus(s) {
        -dec_val(digits_of(s))
    } else {
        dec_val(digits_of(s))
    }
}

/// The string is a base-10 integer that fits the id type: an optional
/// minus sign, then at least one digit, denoting a value in range.
pub open spec fn valid_id_str(s: Seq<char>) -> bool {
    &&& digits_of(s).len() > 0
    &&& all_digits(digits_of(s))
    &&& i32::MIN <= id_value(s) <= i32::MAX
}

/// A sequence of digits has a value of at least zero.
proof fn lemma_dec_val_nonneg(d: Seq<char>)
    requires
        all_digits(d),
    ensures
        dec_val(d) >= 0,
    decreases d.len(),
{
    if d.len() > 0 {
        assert forall|i: int| 0 <= i < d.drop_last().len() implies is_digit(
            #[trigger] d.drop_last()[i],
        ) by {
            assert(d.drop_last()[i] == d[i]);
        }
        lemma_dec_val_nonneg(d.drop_last());
        assert(is_digit(d.last()));
    }
}

/// Every prefix of a digit sequence has a value no larger than a longer
/// prefix: appending digits never shrinks the value.
proof fn lemma_dec_val_monotone(d: Seq<char>, i: int, j: int)
    requires
        all_digits(d),
        0 <= i <= j <= d.len(),
    ensures
        dec_val(d.subrange(0, i)) <= dec_val(d.subrange(0, j)),
    decreases j - i,
{
    if i < j {
        lemma_dec_val_monotone(d, i, j - 1);
        assert forall|k: int| 0 <= k < d.subrange(0, j - 1).len() implies is_digit(
            #[trigger] d.subrange(0, j - 1)[k],
        ) by {
            assert(d.subrange(0, j - 1)[k] == d[k]);
        }
        lemma_dec_val_nonneg(d.subrange(0, j - 1));
        assert(d.subrange(0, j).drop_last() =~= d.subrange(0, j - 1));
        assert(d.subrange(0, j).last() == d[j - 1]);
        assert(is_digit(d[j - 1]));
    }
}

/// Parses the `{id}` path parameter: an optional minus sign and base-10
/// digits. Returns the id exactly when the string denotes an integer that
/// fits the id type; anything else is refused, which the HTTP surface
/// answers with a 400.
pub fn parse_id(s: &str) -> (r: Option<i32>)
    ensures
        match r {
            Some(n) => valid_id_str(s@) && n as int == id_value(s@),
            None => !valid_id_str(s@),
        },
{
    let ghost d = digits_of(s@);
    let len = s.unicode_len();
    if len == 0 {
        return None;
    }
    let neg = s.get_char(0) == '-';
    let start: usize = if neg {
        1
    } else {
        0
    };
    if start == len {
        proof {
            assert(d.len() == 0);
        }
        return None;
    }
    let mut i: usize = start;
    let mut acc: u64 = 0;
    while i < len
        invariant
            len == s@.len(),
            start <= i <= len,
            start == (if has_minus(s@) {
                1int
            } else {
                0int
            }),
            d == digits_of(s@),
            d.len() == len - start,
            forall|k: int| 0 <= k < d.len() ==> d[k] == s@[k + start],
            all_digits(d.subrange(0, i - start)),
            acc as int == dec_val(d.subrange(0, i - start)),
            acc <= 0x8000_0000,
        decreases len - i,
    {
        let c = s.get_char(i);
        let cv = c as u32;
        if cv < '0' as u32 || cv > '9' as u32 {
            proof {
                assert(d[i - start] == s@[i as int]);
                assert(!is_digit(d[i - start]));
            }
            return None;
        }
        let dv = (cv - '0' as u32) as u64;
        proof {
            assert(is_digit(s@[i as int]));
            assert(dv as int == digit_val(s@[i as int]));
        }
        acc = acc * 10 + dv;
        proof {
            let k = i - start;
            assert(d.subrange(0, k + 1).drop_last() =~= d.subrange(0, k));
            assert(d.subrange(0, k + 1).last() == d[k]);
            assert(d[k] == s@[i as int]);
            assert forall|m: int| 0 <= m < k + 1 implies is_digit(
                #[trigger] d.subrange(0, k + 1)[m],
            ) by {
                assert(d.subrange(0, k + 1)[m] == d[m]);
                if m < k {
                    assert(d.subrange(0, k)[m] == d[m]);
                }
            }
            assert(acc as int == dec_val(d.subrange(0, k + 1)));
        }
        if acc > 0x8000_0000 {
            proof {
                let k = i + 1 - start;
                if all_digits(d) {
                    lemma_dec_val_monotone(d, k, d.len() as int);
                    assert(d.subrange(0, d.len() as int) =~= d);
                    assert(dec_val(d) > 0x8000_0000);
                }
            }
            return None;
        }
        i = i + 1;
    }
    proof {
        assert(d.subrange(0, (len - start) as int) =~= d);
        assert(all_digits(d));
        assert(acc as int == dec_val(d));
    }
    if neg {
        if acc == 0x8000_0000 {
            Some(i32::MIN)
        } else {
            Some(-(acc as i32))
        }
    } else {
        if acc == 0x8000_0000 {
            proof {
                assert(id_value(s@) > i32::MAX);
            }
            None
        } else {
            Some(acc as i32)
        }
    }
}

/// The status code each failure kind maps to: a missing row is 404, any
/// other store failure is 500.
pub fn status_code(e: &RepositoryError) -> (s: u16)
    ensures
        s == match e {
            RepositoryError::NotFound(_) => 404u16,
            RepositoryError::Unexpected(_) => 500u16,
        },
{
    match e {
        RepositoryError::NotFound(_) => 404,
        RepositoryError::Unexpected(_) => 500,
    }
}

/// POST `/todos`: creates the item; 201 with the stored row on success,
/// 500 with no body when the store failed (a creation never sees 404).
pub fn create_todo<T: TodoRepository>(repo: &mut T, payload: CreateTodo) -> (r: (
    u16,
    Option<Todo>,
))
    requires
        old(repo).inv(),
    ensures
        final(repo).inv(),
        match r.1 {
            Some(t) => r.0 == 201 && create_ok(old(repo).rows(), final(repo).rows(), payload@, t@),
            None => r.0 == 500 && final(repo).rows() == old(repo).rows(),
        },
{
    match repo.create(payload) {
        Ok(t) => (201, Some(t)),
        Err(e) => (status_code(&e), None),
    }
}

/// GET `/todos/{id}`: fetches one item; 200 with the row, 404 with no body
/// when the id is absent, 500 with no body when the store failed.
pub fn find_todo<T: TodoRepository>(repo: &T, id: i32) -> (r: (u16, Option<Todo>))
    requires
        repo.inv(),
    ensures
        match r.1 {
            Some(t) => r.0 == 200 && contains_id(repo.rows(), id as int) && t@ == row_at(
                repo.rows(),
                id as int,
            ),
            None => (r.0 == 404 && !contains_id(repo.rows(), id as int)) || r.0 == 500,
        },
{
    match repo.find(id) {
        Ok(t) => (200, Some(t)),
        Err(e) => (status_code(&e), None),
    }
}

/// GET `/todos`: lists every item, newest id first; 200 with the rows, or
/// 500 with no body when the store failed. An empty table is 200 with an
/// empty list.
pub fn all_todo<T: TodoRepository>(repo: &T) -> (r: (u16, Option<Vec<Todo>>))
    requires
        repo.inv(),
    ensures
        match r.1 {
            Some(v) => r.0 == 200 && views_of(v@) == repo.rows(),
            None => r.0 == 500,
        },
{
    match repo.all() {
        Ok(v) => (200, Some(v)),
        Err(e) => (status_code(&e), None),
    }
}

/// PATCH `/todos/{id}`: merges the partial payload into the stored row;
/// 200 with the merged row, 404 with no body when the id is absent, 500
/// with no body when the store failed (the table is then unchanged).
pub fn update_todo<T: TodoRepository>(repo: &mut T, id: i32, payload: UpdateTodo) -> (r: (
    u16,
    Option<Todo>,
))
    requires
        old(repo).inv(),
    ensures
        final(repo).inv(),
        match r.1 {
            Some(t) => r.0 == 200 && contains_id(old(repo).rows(), id as int) && t@
                == apply_update_spec(row_at(old(repo).rows(), id as int), payload@)
                && final(repo).rows() == update_rows(old(repo).rows(), id as int, payload@),
            None => final(repo).rows() == old(repo).rows() && ((r.0 == 404 && !contains_id(
                old(repo).rows(),
                id as int,
            )) || r.0 == 500),
        },
{
    match repo.update(id, payload) {
        Ok(t) => (200, Some(t)),
        Err(e) => (status_code(&e), None),
    }
}

/// DELETE `/todos/{id}`: removes the row; 204 with an empty body, 404 when
/// the id is absent (no row was affected), 500 when the store failed (the
/// table is then unchanged).
pub fn delete_todo<T: TodoRepository>(repo: &mut T, id: i32) -> (s: u16)
    requires
        old(repo).inv(),
    ensures
        final(repo).inv(),
        (s == 204 && contains_id(old(repo).rows(), id as int) && final(repo).rows() == remove_id(
            old(repo).rows(),
            id as int,
        )) || (final(repo).rows() == old(repo).rows() && ((s == 404 && !contains_id(
            old(repo).rows(),
            id as int,
        )) || s == 500)),
{
    match repo.delete(id) {
        Ok(_) => 204,
        Err(e) => status_code(&e),
    }
}

} // verus!
