//! Which files of the migrations directory are migrations, and in what order
//! they run.
use crate::filter::{lex_le, names_view};
use vstd::prelude::*;
use vstd::string::*;

verus! {

/// A file name whose extension is `sql`: it ends in `.sql`, and that dot is
/// not the name's first character.
pub open spec fn is_migration_name(name: Seq<char>) -> bool {
    name.len() >= 5 && name.skip(name.len() - 4) == ".sql"@
}

/// Relies on slice::sort for strings: the same strings, in ascending order,
/// which for strings is dictionary order by code point.
#[verifier::external_body]
fn sort_strings(v: &mut Vec<String>)
    ensures
        names_view(final(v)@).to_multiset() == names_view(old(v)@).to_multiset(),
        forall|i: int, j: int|
            0 <= i < j < final(v)@.len() ==> lex_le(final(v)@[i]@, final(v)@[j]@),
{
    v.sort();
}

fn is_migration(name: &str) -> (r: bool)
    ensures
        r == is_migration_name(name@),
{
    proof {
        reveal_strlit(".sql");
        assert(".sql"@.len() == 4);
    }
    let n = name.unicode_len();
    if n < 5 {
        return false;
    }
    let tail = name.substring_char(n - 4, n);
    String::from_str(tail) == String::from_str(".sql")
}

/// The migrations among a directory's file names, in the order they run:
/// by name.
pub fn migration_order(file_names: &Vec<String>) -> (r: Vec<String>)
    ensures
        names_view(r@).to_multiset() == names_view(file_names@).filter(
            |n: Seq<char>| is_migration_name(n),
        ).to_multiset(),
        forall|i: int, j: int| 0 <= i < j < r@.len() ==> lex_le(r@[i]@, r@[j]@),
{
    let mut picked: Vec<String> = Vec::new();
    let mut k: usize = 0;
    while k < file_names.len()
        invariant
            k <= file_names@.len(),
            names_view(picked@) == names_view(file_names@.take(k as int)).filter(
                |n: Seq<char>| is_migration_name(n),
            ),
        decreases file_names@.len() - k,
    {
        let ghost before = names_view(file_names@.take(k as int));
        let ghost after = names_view(file_names@.take(k as int + 1));
        assert(after =~= before.push(file_names@[k as int]@));
        proof {
            reveal(Seq::filter);
            assert(after.drop_last() =~= before);
        }
        if is_migration(file_names[k].as_str()) {
            picked.push(file_names[k].clone());
            assert(names_view(picked@) =~= names_view(file_names@.take(k as int)).filter(
                |n: Seq<char>| is_migration_name(n),
            ).push(file_names@[k as int]@));
        }
        k = k + 1;
    }
    assert(file_names@.take(k as int) =~= file_names@);
    sort_strings(&mut picked);
    picked
}

} // verus!
