//! Administration: who may log in, and the pure pieces of the admin
//! handlers — credential checking, colour parsing, and the flash
//! messages the board operations earn.

use vstd::prelude::*;
use crate::models::Flash;
use crate::store::{CreateBoardError};
use crate::text::{parse_u32_hex, valid_number, radix_value, stripped_digits};

verus! {

/// One administrator account from the configuration.
#[derive(Debug, PartialEq)]
pub struct Admin {
    pub name: String,
    pub password: String,
}

/// The login form's two fields.
#[derive(Debug, PartialEq)]
pub struct LoginForm {
    pub user: String,
    pub pass: String,
}

/// The form used both to create and to update a board; the colour
/// arrives as an HTML colour literal.
#[derive(Debug, PartialEq)]
pub struct UpdateBoardForm {
    pub name: String,
    pub description: String,
    pub color: String,
}

/// What a login attempt came to.
#[derive(Debug, PartialEq, Eq)]
pub enum LoginOutcome {
    UnknownUser,
    WrongPassword,
    Accepted,
}

/// Position `i` holds the first admin of this name.
pub open spec fn first_admin_named(admins: Seq<Admin>, user: Seq<char>, i: int) -> bool {
    0 <= i < admins.len() && admins[i].name@ == user
        && (forall|j: int| 0 <= j < i ==> (#[trigger] admins[j]).name@ != user)
}

/// Checks a login attempt: unknown name, wrong password for the first
/// account of that name, or accepted.
pub fn check_login(admins: &Vec<Admin>, form: &LoginForm) -> (r: LoginOutcome)
    ensures
        (forall|i: int| 0 <= i < admins@.len()
            ==> (#[trigger] admins@[i]).name@ != form.user@) <==> r is UnknownUser,
        forall|i: int| first_admin_named(admins@, form.user@, i)
            ==> r == (if admins@[i].password@ == form.pass@ {
                LoginOutcome::Accepted
            } else {
                LoginOutcome::WrongPassword
            }),
{
    let n = admins.len();
    let mut i: usize = 0;
    while i < n
        invariant
            n == admins.len(),
            i <= n,
            forall|k: int| 0 <= k < i ==> (#[trigger] admins@[k]).name@ != form.user@,
        decreases n - i,
    {
        if admins[i].name == form.user {
            assert(first_admin_named(admins@, form.user@, i as int));
            if admins[i].password == form.pass {
                return LoginOutcome::Accepted;
            } else {
                return LoginOutcome::WrongPassword;
            }
        }
        i += 1;
    }
    LoginOutcome::UnknownUser
}

/// Parses an HTML colour literal: one leading character (the hash) is
/// skipped, the rest is read as a hexadecimal number that must fit in
/// 32 bits, with the standard library's radix-16 semantics.
pub fn parse_html_color(color: &str) -> (r: Option<u32>)
    ensures
        color@.len() == 0 ==> r is None,
        color@.len() >= 1 ==> {
            let rest = color@.subrange(1, color@.len() as int);
            if valid_number(rest, 16, u32::MAX as int) {
                r == Some(radix_value(stripped_digits(rest), 16) as u32)
            } else {
                r is None
            }
        },
{
    let len = color.unicode_len();
    if len == 0 {
        return None;
    }
    let rest = color.substring_char(1, len);
    parse_u32_hex(rest)
}

/// The flash message a board creation earns: success, or the specific
/// word that the name is taken. A full id space is no flash but a
/// failure page, and is left to the caller.
pub fn create_board_flash(res: &Result<i64, CreateBoardError>) -> (r: Flash)
    ensures
        res is Ok ==> (r matches Flash::Success(m)
            && m@ == "Board successfully created"@),
        res matches Err(CreateBoardError::NameTaken) ==> (r matches Flash::Error(m)
            && m@ == "Board already exists"@),
{
    match res {
        Ok(_) => Flash::Success(String::from_str("Board successfully created")),
        Err(CreateBoardError::NameTaken) => Flash::Error(String::from_str(
            "Board already exists")),
        Err(_) => Flash::Error(String::from_str("Couldn't create the board")),
    }
}

} // verus!
