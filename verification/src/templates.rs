//! The data each page is rendered from. Rendering itself (HTML) is the
//! application shell's; these are the typed models it receives.

use vstd::prelude::*;
use crate::models::{Board, Flash, Post};

verus! {

/// The front page: the boards to choose from.
pub struct Index {
    pub boards: Vec<Board>,
}

/// A board's page: its posts for the chosen month, newest first.
pub struct BoardView {
    pub flash: Flash,
    pub admin: Option<String>,
    pub board: Board,
    pub year: i32,
    pub month: u32,
    pub posts: Vec<Post>,
}

/// The login page.
pub struct Login {
    pub flash: Flash,
}

impl Default for Login {
    fn default() -> (r: Self)
        ensures
            r.flash is Quiet,
    {
        Login { flash: Flash::Quiet }
    }
}

/// The admin landing page: the boards under management.
pub struct AdminHome {
    pub flash: Flash,
    pub boards: Vec<Board>,
}

/// The about page.
pub struct About;

} // verus!
