//! Grids, login credentials and their checks, the names under which
//! credentials are kept in the system keychain, and the parameters of a
//! login request.

use vstd::prelude::*;
use crate::text::{
    alphanumeric, ascii_lower, chars_of, copy_range, find_char, first_index, has_char, is_alphanumeric,
    lowercase, str_eq, string_of, to_lowercase, trim, trim_range,
};

verus! {

/// A grid the viewer can log in to.
#[derive(Debug, Clone, PartialEq, Eq)]
pub enum Grid {
    /// The main Second Life grid (Agni).
    SecondLife,
    /// The Second Life beta grid (Aditi).
    SecondLifeBeta,
    /// An OpenSimulator grid.
    OpenSimulator { name: String, login_uri: String },
    /// Any other grid.
    Custom { name: String, login_uri: String },
}

/// The display name of a grid.
pub open spec fn grid_name(g: Grid) -> Seq<char> {
    match g {
        Grid::SecondLife => "Second Life"@,
        Grid::SecondLifeBeta => "Second Life Beta"@,
        Grid::OpenSimulator { name, .. } => name@,
        Grid::Custom { name, .. } => name@,
    }
}

/// The login URI of a grid.
pub open spec fn grid_login_uri(g: Grid) -> Seq<char> {
    match g {
        Grid::SecondLife => "https://login.agni.lindenlab.com/cgi-bin/login.cgi"@,
        Grid::SecondLifeBeta => "https://login.aditi.lindenlab.com/cgi-bin/login.cgi"@,
        Grid::OpenSimulator { login_uri, .. } => login_uri@,
        Grid::Custom { login_uri, .. } => login_uri@,
    }
}

/// The grid a lower-case name stands for.
pub open spec fn grid_for_lowercase(l: Seq<char>) -> Option<Grid> {
    if l == "secondlife"@ || l == "sl"@ || l == "agni"@ {
        Some(Grid::SecondLife)
    } else if l == "secondlife-beta"@ || l == "sl-beta"@ || l == "aditi"@ {
        Some(Grid::SecondLifeBeta)
    } else {
        None
    }
}

impl Grid {
    /// The grid's display name.
    pub fn name(&self) -> (s: &str)
        ensures
            s@ == grid_name(*self),
    {
        match self {
            Grid::SecondLife => "Second Life",
            Grid::SecondLifeBeta => "Second Life Beta",
            Grid::OpenSimulator { name, .. } => name.as_str(),
            Grid::Custom { name, .. } => name.as_str(),
        }
    }

    /// The grid's login URI.
    pub fn login_uri(&self) -> (s: &str)
        ensures
            s@ == grid_login_uri(*self),
    {
        match self {
            Grid::SecondLife => "https://login.agni.lindenlab.com/cgi-bin/login.cgi",
            Grid::SecondLifeBeta => "https://login.aditi.lindenlab.com/cgi-bin/login.cgi",
            Grid::OpenSimulator { login_uri, .. } => login_uri.as_str(),
            Grid::Custom { login_uri, .. } => login_uri.as_str(),
        }
    }

    /// Whether the grid is run by Linden Lab.
    pub fn is_official(&self) -> (b: bool)
        ensures
            b <==> (*self is SecondLife || *self is SecondLifeBeta),
    {
        match self {
            Grid::SecondLife | Grid::SecondLifeBeta => true,
            _ => false,
        }
    }

    /// The main Second Life grid.
    pub fn default() -> (g: Self)
        ensures
            g == Grid::SecondLife,
    {
        Grid::SecondLife
    }

    /// The grid named by an already lower-cased name.
    pub fn from_lowercase_name(lower: &str) -> (g: Option<Self>)
        ensures
            g == grid_for_lowercase(lower@),
    {
        if str_eq(lower, "secondlife") || str_eq(lower, "sl") || str_eq(lower, "agni") {
            Some(Grid::SecondLife)
        } else if str_eq(lower, "secondlife-beta") || str_eq(lower, "sl-beta") || str_eq(
            lower,
            "aditi",
        ) {
            Some(Grid::SecondLifeBeta)
        } else {
            None
        }
    }

    /// The grid named by `name`, in any case.
    pub fn from_name(name: &str) -> (g: Option<Self>)
        ensures
            g == grid_for_lowercase(lowercase(name@)),
            (forall|i: int| 0 <= i < name@.len() ==> (#[trigger] name@[i] as u32) < 128) ==> g
                == grid_for_lowercase(name@.map_values(|c: char| ascii_lower(c))),
    {
        let lower = to_lowercase(name);
        Self::from_lowercase_name(lower.as_str())
    }

    /// An OpenSimulator grid.
    pub fn opensim(name: String, login_uri: String) -> (g: Self)
        ensures
            g == (Grid::OpenSimulator { name, login_uri }),
    {
        Grid::OpenSimulator { name, login_uri }
    }

    /// A custom grid.
    pub fn custom(name: String, login_uri: String) -> (g: Self)
        ensures
            g == (Grid::Custom { name, login_uri }),
    {
        Grid::Custom { name, login_uri }
    }

    /// The grids known in advance: Second Life and its beta grid.
    pub fn predefined() -> (v: Vec<Self>)
        ensures
            v@ == seq![Grid::SecondLife, Grid::SecondLifeBeta],
    {
        let mut v: Vec<Grid> = Vec::new();
        v.push(Grid::SecondLife);
        v.push(Grid::SecondLifeBeta);
        v
    }
}

impl Default for Grid {
    fn default() -> (g: Self)
        ensures
            g == Grid::SecondLife,
    {
        Grid::SecondLife
    }
}

/// All grids known in advance.
pub fn available_grids() -> (v: Vec<Grid>)
    ensures
        v@ == seq![Grid::SecondLife, Grid::SecondLifeBeta],
{
    Grid::predefined()
}

/// What a user logs in with.
#[derive(Debug, Clone)]
pub struct LoginCredentials {
    pub username: String,
    pub password: String,
    pub grid: Grid,
    pub start_location: String,
}

/// Whether every character of a user name is a letter, a digit, a space or a period.
pub open spec fn username_chars_ok(u: Seq<char>) -> bool {
    forall|i: int| 0 <= i < u.len() ==> alphanumeric(#[trigger] u[i]) || u[i] == ' ' || u[i] == '.'
}

/// An ASCII letter or digit.
pub open spec fn ascii_alnum(c: char) -> bool {
    ('a' <= c && c <= 'z') || ('A' <= c && c <= 'Z') || ('0' <= c && c <= '9')
}

/// Whether every character of a user name is an ASCII letter or digit, a
/// space or a period.
pub open spec fn ascii_username_ok(u: Seq<char>) -> bool {
    forall|i: int| 0 <= i < u.len() ==> ascii_alnum(#[trigger] u[i]) || u[i] == ' ' || u[i] == '.'
}

/// Why credentials are refused, if they are.
pub open spec fn credentials_problem(username: Seq<char>, password: Seq<char>) -> Option<Seq<char>> {
    if trim(username).len() == 0 {
        Some("Username cannot be empty"@)
    } else if trim(password).len() == 0 {
        Some("Password cannot be empty"@)
    } else if !username_chars_ok(trim(username)) {
        Some("Username can only contain letters, numbers, spaces, and periods"@)
    } else {
        None
    }
}

/// `s` cut at the first `c`: what comes before and what comes after; the
/// whole of `s` and `Resident` when there is no `c`.
pub open spec fn split_at_first(s: Seq<char>, c: char) -> (Seq<char>, Seq<char>) {
    match first_index(s, c) {
        Some(i) => (s.take(i), s.skip(i + 1)),
        None => (s, "Resident"@),
    }
}

/// First and last name in a user name: `first.last` (without spaces),
/// `first last`, or `first` alone, whose last name is `Resident`.
pub open spec fn split_name_spec(username: Seq<char>) -> (Seq<char>, Seq<char>) {
    let u = trim(username);
    if u.contains('.') && !u.contains(' ') {
        split_at_first(u, '.')
    } else {
        split_at_first(u, ' ')
    }
}

fn split_chars_at_first(u: &Vec<char>, c: char) -> (r: (String, String))
    ensures
        (r.0@, r.1@) == split_at_first(u@, c),
{
    proof {
        crate::text::lemma_first_index(u@, c);
    }
    match find_char(u, c) {
        Some(i) => {
            let first = copy_range(u, 0, i);
            let last = copy_range(u, i + 1, u.len());
            assert(first@ =~= u@.take(i as int));
            assert(last@ =~= u@.skip(i + 1));
            (string_of(&first), string_of(&last))
        },
        None => (string_of(u), String::from_str("Resident")),
    }
}

/// The trimmed characters of a string.
fn trimmed_chars(s: &String) -> (r: Vec<char>)
    ensures
        r@ == trim(s@),
{
    let v = chars_of(s.as_str());
    assert(v@.subrange(0, v.len() as int) =~= v@);
    trim_range(&v, 0, v.len())
}

impl LoginCredentials {
    /// Credentials for the main grid, starting at the last location.
    pub fn new(username: String, password: String) -> (c: Self)
        ensures
            c.username == username,
            c.password == password,
            c.grid == Grid::SecondLife,
            c.start_location@ == "last"@,
    {
        LoginCredentials {
            username,
            password,
            grid: Grid::default(),
            start_location: String::from_str("last"),
        }
    }

    /// The same credentials for another grid.
    pub fn with_grid(self, grid: Grid) -> (c: Self)
        ensures
            c.username == self.username,
            c.password == self.password,
            c.grid == grid,
            c.start_location == self.start_location,
    {
        let mut c = self;
        c.grid = grid;
        c
    }

    /// The same credentials with another start location.
    pub fn with_start_location(self, location: String) -> (c: Self)
        ensures
            c.username == self.username,
            c.password == self.password,
            c.grid == self.grid,
            c.start_location == location,
    {
        let mut c = self;
        c.start_location = location;
        c
    }

    /// Checks that the user name and password are not blank and that the
    /// user name holds only letters, digits, spaces and periods.
    pub fn validate(&self) -> (r: Result<(), String>)
        ensures
            r is Ok <==> credentials_problem(self.username@, self.password@) is None,
            r matches Err(e) ==> credentials_problem(self.username@, self.password@) == Some(e@),
            trim(self.password@).len() > 0 && (forall|i: int|
                0 <= i < trim(self.username@).len() ==> (#[trigger] trim(self.username@)[i] as u32)
                    < 128) ==> (username_chars_ok(trim(self.username@)) <==> ascii_username_ok(
                trim(self.username@),
            )),
    {
        let user = trimmed_chars(&self.username);
        if user.len() == 0 {
            return Err(String::from_str("Username cannot be empty"));
        }
        let pass = trimmed_chars(&self.password);
        if pass.len() == 0 {
            return Err(String::from_str("Password cannot be empty"));
        }
        let mut i: usize = 0;
        while i < user.len()
            invariant
                i <= user.len(),
                user@ == trim(self.username@),
                user@.len() > 0,
                trim(self.password@).len() > 0,
                forall|k: int|
                    0 <= k < i ==> alphanumeric(#[trigger] user@[k]) || user@[k] == ' ' || user@[k]
                        == '.',
                forall|k: int|
                    0 <= k < i && (user@[k] as u32) < 128 ==> (alphanumeric(#[trigger] user@[k])
                        <==> ascii_alnum(user@[k])),
            decreases user.len() - i,
        {
            let c = user[i];
            if !(is_alphanumeric(c) || c == ' ' || c == '.') {
                assert((c as u32) < 128 ==> !ascii_username_ok(user@)) by {
                    if (c as u32) < 128 {
                        assert(!(ascii_alnum(user@[i as int]) || user@[i as int] == ' ' || user@[i as int]
                            == '.'));
                    }
                }
                assert(!username_chars_ok(user@)) by {
                    assert(!(alphanumeric(user@[i as int]) || user@[i as int] == ' ' || user@[i as int]
                        == '.'));
                }
                return Err(
                    String::from_str(
                        "Username can only contain letters, numbers, spaces, and periods",
                    ),
                );
            }
            i = i + 1;
        }
        proof {
            if forall|k: int| 0 <= k < user@.len() ==> (#[trigger] user@[k] as u32) < 128 {
                assert forall|k: int| 0 <= k < user@.len() implies ascii_alnum(#[trigger] user@[k])
                    || user@[k] == ' ' || user@[k] == '.' by {
                    assert((user@[k] as u32) < 128);
                }
            }
        }
        Ok(())
    }

    /// First and last name: `first.last` and `first last` are split at the
    /// first period or space; a single name gets the last name `Resident`.
    pub fn split_name(&self) -> (r: (String, String))
        ensures
            (r.0@, r.1@) == split_name_spec(self.username@),
    {
        let u = trimmed_chars(&self.username);
        if has_char(&u, '.') && !has_char(&u, ' ') {
            split_chars_at_first(&u, '.')
        } else {
            split_chars_at_first(&u, ' ')
        }
    }
}

/// Names under which credentials are kept in the system keychain.
pub struct CredentialStore {
    service_name: String,
}

impl CredentialStore {
    /// The keychain service the entries belong to.
    pub closed spec fn service(&self) -> Seq<char> {
        self.service_name@
    }

    /// A store under the service name `slv-rust`.
    pub fn new() -> (s: Self)
        ensures
            s.service() == "slv-rust"@,
    {
        CredentialStore { service_name: String::from_str("slv-rust") }
    }

    /// The keychain service name.
    pub fn service_name(&self) -> (s: &str)
        ensures
            s@ == self.service(),
    {
        self.service_name.as_str()
    }

    /// The entry that holds the user name for a grid: `{grid}_username`,
    /// with the grid name in lower case.
    pub fn username_key(&self, grid_name: &str) -> (k: String)
        ensures
            k@ == lowercase(grid_name@) + "_username"@,
    {
        let mut k = to_lowercase(grid_name);
        k.append("_username");
        k
    }

    /// The entry that holds the password for a grid: `{grid}_password`.
    pub fn password_key(&self, grid_name: &str) -> (k: String)
        ensures
            k@ == lowercase(grid_name@) + "_password"@,
    {
        let mut k = to_lowercase(grid_name);
        k.append("_password");
        k
    }

    /// The credentials read back for a grid: only when both entries were
    /// found, for the grid of that name (the main grid when the name is
    /// unknown).
    pub fn credentials_from_entries(
        &self,
        grid_name: &str,
        username: Option<String>,
        password: Option<String>,
    ) -> (c: Option<LoginCredentials>)
        ensures
            c.is_some() <==> username.is_some() && password.is_some(),
            c matches Some(cr) ==> cr.username == username.unwrap() && cr.password
                == password.unwrap() && cr.start_location@ == "last"@ && cr.grid == (match grid_for_lowercase(
                lowercase(grid_name@),
            ) {
                Some(g) => g,
                None => Grid::SecondLife,
            }),
    {
        match (username, password) {
            (Some(u), Some(p)) => {
                let grid = match Grid::from_name(grid_name) {
                    Some(g) => g,
                    None => Grid::SecondLife,
                };
                Some(LoginCredentials::new(u, p).with_grid(grid))
            },
            _ => None,
        }
    }

    /// Whether credentials are stored for a grid, given what reading its two
    /// entries gave.
    pub fn has_stored_credentials(&self, username: &Option<String>, password: &Option<String>) -> (b: bool)
        ensures
            b <==> username.is_some() && password.is_some(),
    {
        username.is_some() && password.is_some()
    }
}

impl Default for CredentialStore {
    fn default() -> (s: Self)
        ensures
            s.service() == "slv-rust"@,
    {
        Self::new()
    }
}

/// The outcome of deleting both entries: success when both went, otherwise
/// the first error.
pub fn combine_delete_results<E>(username_result: Result<(), E>, password_result: Result<(), E>) -> (r: Result<(), E>)
    ensures
        r == (match (username_result, password_result) {
            (Ok(()), Ok(())) => Ok(()),
            (Err(e), _) => Err(e),
            (Ok(()), Err(e)) => Err(e),
        }),
{
    match (username_result, password_result) {
        (Ok(()), Ok(())) => Ok(()),
        (Err(e), _) => Err(e),
        (Ok(()), Err(e)) => Err(e),
    }
}

} // verus!
