//! Setting up the database of a development deployment: from the address of
//! the board's database to the statements that create it afresh.
//!
//! Addresses are parsed and rewritten by the `url` crate.

use crate::model::opt_text;
use crate::text::{chars_of, string_of};
use vstd::prelude::*;
use vstd::string::StringExecFns;

verus! {

/// The path of the database that every server has, through which other
/// databases are dropped and created.
pub const MAINTENANCE_PATH: &'static str = "/postgres";

/// The path of an address as the `url` crate reads it: percent-encoded, and
/// for an address with a host beginning with a slash. `None` where the text
/// is no absolute address.
pub uninterp spec fn url_path(address: Seq<char>) -> Option<Seq<char>>;

/// An address with its path replaced by `path`, as the `url` crate writes it.
/// `None` where the text is no absolute address.
pub uninterp spec fn url_with_path(address: Seq<char>, path: Seq<char>) -> Option<Seq<char>>;

/// Calls `Url::parse` and `Url::path` of the `url` crate.
///
/// Trusted: the result depends on the text alone, and is `None` exactly
/// where the text does not parse.
#[verifier::external_body]
fn path_of(address: &str) -> (r: Option<String>)
    ensures
        opt_text(r) == url_path(address@),
{
    Some(url::Url::parse(address).ok()?.path().to_string())
}

/// Calls `Url::parse`, `Url::set_path` and `Url::as_str` of the `url` crate.
///
/// Trusted: the result depends on the two texts alone, and is `None` exactly
/// where the address does not parse.
#[verifier::external_body]
fn on_path(address: &str, path: &str) -> (r: Option<String>)
    ensures
        opt_text(r) == url_with_path(address@, path@),
{
    let mut parsed = url::Url::parse(address).ok()?;
    parsed.set_path(path);
    Some(parsed.as_str().to_string())
}

/// A text without the slashes at its start.
pub open spec fn without_leading_slashes(s: Seq<char>) -> Seq<char>
    decreases s.len(),
{
    if s.len() > 0 && s.first() == '/' {
        without_leading_slashes(s.drop_first())
    } else {
        s
    }
}

/// The statement that drops the database `name` if it exists.
pub open spec fn drop_statement_of(name: Seq<char>) -> Seq<char> {
    "DROP DATABASE IF EXISTS "@ + name + ";"@
}

/// The statement that creates the database `name`.
pub open spec fn create_statement_of(name: Seq<char>) -> Seq<char> {
    "CREATE DATABASE "@ + name + ";"@
}

/// What it takes to create a database afresh.
pub struct ResetPlan {
    /// The address of the maintenance database on the same server.
    pub maintenance_url: String,
    /// The statement that drops the database.
    pub drop_statement: String,
    /// The statement that creates it again.
    pub create_statement: String,
}

/// What a [`ResetPlan`] holds, as mathematical values.
pub struct ResetPlanView {
    pub maintenance_url: Seq<char>,
    pub drop_statement: Seq<char>,
    pub create_statement: Seq<char>,
}

impl View for ResetPlan {
    type V = ResetPlanView;

    open spec fn view(&self) -> ResetPlanView {
        ResetPlanView {
            maintenance_url: self.maintenance_url@,
            drop_statement: self.drop_statement@,
            create_statement: self.create_statement@,
        }
    }
}

/// The plan for the database at `address`: its name is the path of the
/// address without the slashes at its start, and the maintenance database
/// lies at the same address under [`MAINTENANCE_PATH`]. There is no plan
/// for a text that is no absolute address.
pub open spec fn reset_plan_of(address: Seq<char>) -> Option<ResetPlanView> {
    match (url_path(address), url_with_path(address, MAINTENANCE_PATH@)) {
        (Some(path), Some(maintenance_url)) => Some(
            ResetPlanView {
                maintenance_url,
                drop_statement: drop_statement_of(without_leading_slashes(path)),
                create_statement: create_statement_of(without_leading_slashes(path)),
            },
        ),
        _ => None,
    }
}

/// The view of an optional plan.
pub open spec fn opt_plan(plan: Option<ResetPlan>) -> Option<ResetPlanView> {
    match plan {
        Some(p) => Some(p@),
        None => None,
    }
}

/// Removes the slashes at the start of a text.
pub fn strip_leading_slashes(s: &str) -> (r: String)
    ensures
        r@ == without_leading_slashes(s@),
{
    let v = chars_of(s);
    let mut a: usize = 0;
    assert(v@.skip(0) =~= v@);
    while a < v.len() && v[a] == '/'
        invariant
            a <= v.len(),
            without_leading_slashes(v@) == without_leading_slashes(v@.skip(a as int)),
        decreases v.len() - a,
    {
        assert(v@.skip(a as int).drop_first() =~= v@.skip(a + 1));
        a += 1;
    }
    assert(v@.subrange(a as int, v.len() as int) =~= v@.skip(a as int));
    string_of(&v, a, v.len())
}

/// Plans how to create the database at `address` afresh.
pub fn reset_plan(address: &str) -> (plan: Option<ResetPlan>)
    ensures
        opt_plan(plan) == reset_plan_of(address@),
{
    let path = match path_of(address) {
        Some(p) => p,
        None => {
            return None;
        },
    };
    let maintenance_url = match on_path(address, MAINTENANCE_PATH) {
        Some(u) => u,
        None => {
            return None;
        },
    };
    let name = strip_leading_slashes(path.as_str());
    let mut drop_statement = "DROP DATABASE IF EXISTS ".to_owned();
    drop_statement.append(name.as_str());
    drop_statement.append(";");
    let mut create_statement = "CREATE DATABASE ".to_owned();
    create_statement.append(name.as_str());
    create_statement.append(";");
    Some(ResetPlan { maintenance_url, drop_statement, create_statement })
}

} // verus!
