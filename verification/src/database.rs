//! The names and addresses that setting up a tenant's database needs.

use crate::text::{chars_of, slice_of, string_of};
use vstd::prelude::*;
use vstd::string::*;

verus! {

/// Why a tenant's database cannot be set up.
#[derive(Clone, Copy, Debug, PartialEq, Eq, Structural)]
pub enum DatabaseError {
    /// The administrator's address holds no slash.
    InvalidAdminUrl,
}

/// The place of the last slash in `s`.
pub open spec fn last_slash(s: Seq<char>) -> Option<int>
    decreases s.len(),
{
    if s.len() == 0 {
        None
    } else if s.last() == '/' {
        Some(s.len() - 1)
    } else {
        last_slash(s.drop_last())
    }
}

/// The administrator's address without the name of its database: what
/// stands before the last slash.
pub fn base_url_without_db(url: &str) -> (res: Result<String, DatabaseError>)
    ensures
        match last_slash(url@) {
            Some(at) => res is Ok && res->Ok_0@ == url@.take(at),
            None => res == Err::<String, _>(DatabaseError::InvalidAdminUrl),
        },
{
    let chars = chars_of(url);
    let mut end: usize = chars.len();
    assert(chars@.take(end as int) =~= chars@);
    while end > 0
        invariant
            end <= chars.len(),
            chars@ == url@,
            last_slash(chars@) == last_slash(chars@.take(end as int)),
        decreases end,
    {
        if chars[end - 1] == '/' {
            let head = slice_of(&chars, 0, end - 1);
            assert(head@ =~= chars@.take(end - 1));
            assert(chars@.take(end as int).last() == chars@[end - 1]);
            assert(last_slash(chars@.take(end as int)) == Some(end - 1));
            return Ok(string_of(&head));
        }
        assert(chars@.take(end as int).drop_last() =~= chars@.take(end - 1));
        end -= 1;
    }
    Err(DatabaseError::InvalidAdminUrl)
}

/// The statement that creates the database `db_name` from the template.
pub fn create_database_statement(db_name: &str) -> (res: String)
    ensures
        res@ == "CREATE DATABASE \""@ + db_name@ + "\" WITH TEMPLATE template"@,
{
    let mut out = String::from_str("CREATE DATABASE \"");
    out.append(db_name);
    out.append("\" WITH TEMPLATE template");
    out
}

/// The address of the tenant's database: the administrator's address with
/// the tenant's name in place of the database's.
pub fn tenant_url(admin_url: &str, db_name: &str) -> (res: Result<String, DatabaseError>)
    ensures
        match last_slash(admin_url@) {
            Some(at) => res is Ok && res->Ok_0@ == admin_url@.take(at) + "/"@ + db_name@,
            None => res == Err::<String, _>(DatabaseError::InvalidAdminUrl),
        },
{
    match base_url_without_db(admin_url) {
        Ok(base) => {
            let mut out = base;
            out.append("/");
            out.append(db_name);
            Ok(out)
        },
        Err(e) => Err(e),
    }
}

} // verus!
